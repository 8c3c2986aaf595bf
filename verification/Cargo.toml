[package]
name = "cs2_dumper"
version = "0.1.0"
edition = "2021"
publish = false

[dependencies]
anyhow = "1"
log = "0.4"
memflow = "0.2"
pelite = "0.10"
serde = { version = "1", features = ["derive"] }
serde_json = "1"
