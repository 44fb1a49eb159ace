[package]
name = "tantivy_json"
version = "0.1.0"
edition = "2021"
publish = false

[dependencies]
tantivy = "0.22"
serde_json = "1"
serde = { version = "1", features = ["derive"] }

[dev-dependencies]
tempfile = "3"
