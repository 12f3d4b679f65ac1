[package]
name = "kdi_alignment"
version = "0.1.0"
edition = "2021"
publish = false

[dependencies]
chrono = "0.4"
csv = "1"
env_logger = "0.10"
gtfs-structures = { version = "*", default-features = false }
log = "0.4"
serde = { version = "1", features = ["derive"] }
serde_json = "1"
serde_repr = "0.1"
serde-xml-rs = "0.6"
strum = "0.24"
strum_macros = "0.24"
zip = { version = "0.6", default-features = false, features = ["deflate"] }
