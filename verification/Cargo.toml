[package]
name = "reclaim"
version = "0.1.0"
edition = "2021"
publish = false

[dependencies]
glob = "0.3"
jwalk = "0.8"
trash = "5"
serde = { version = "1", features = ["derive"] }
serde_json = "1"
