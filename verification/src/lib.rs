//! Verified core of a Source 2 schema / SDK dumper: the text renderers for the
//! generated C++ headers and reports, the ordered string-keyed maps they walk,
//! the decisions of the console variable and game event walks, the rules of
//! the schema records, and the code pattern searches.

pub mod text;
pub mod strmap;
pub mod pe;
pub mod analysis;
pub mod output;
