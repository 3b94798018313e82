[package]
name = "dragen"
version = "0.1.0"
edition = "2021"
publish = false

[dependencies]
serde = { version = "1", features = ["derive"] }
serde_json = "1"
jsonschema = { version = "*", default-features = false }
littrs = "*"
tanukie = "*"
futures = "0.3"
thiserror = "*"

[dev-dependencies]
regex = "1"
