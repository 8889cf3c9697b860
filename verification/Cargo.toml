[package]
name = "sourcemap_inject"
version = "0.1.0"
edition = "2021"
publish = false

[dependencies]
anyhow = "1"
clap = { version = "4", features = ["derive", "env"] }
serde_json = "1"
sha1 = "0.10"
tracing = "0.1"
urlencoding = "2"
uuid = { version = "1", features = ["v5", "v7"] }
walkdir = "2"
