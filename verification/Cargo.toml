[package]
name = "cyma-core"
version = "0.1.0"
edition = "2021"
publish = false

[dependencies]
serde = { version = "1", features = ["derive"] }
ron = "0.8"
midly = "0.5"
log = "0.4"
