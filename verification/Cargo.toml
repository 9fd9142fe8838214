[package]
name = "media_converter"
version = "0.1.0"
edition = "2021"
publish = false

[dependencies]
indicatif = "0.17"
reqwest = { version = "0.12", features = ["json"] }
serde = { version = "1", features = ["derive"] }
tempfile = "3"
tokio = { version = "1", features = ["macros", "rt-multi-thread"] }
