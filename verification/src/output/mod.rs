//! Renderers for the generated headers and reports.

pub mod convars;
pub mod convar_lines;
pub mod hierarchy;
pub mod llm;
pub mod reports;
pub mod resources;
pub mod xsip_sdk;
