[package]
name = "mineplace_launcher"
version = "0.1.0"
edition = "2021"
publish = false

[dependencies]
serde = { version = "*", features = ["derive"] }
serde_json = "*"
zip = { version = "*", default-features = false, features = ["deflate"] }
reqwest = { version = "*", default-features = false, features = ["stream", "json"] }
tokio = { version = "*", features = ["rt-multi-thread", "macros", "time"] }
dirs = "*"
