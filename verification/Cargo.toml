[package]
name = "weipython"
version = "0.1.0"
edition = "2021"
publish = false

[dependencies]
serde = { version = "1", features = ["derive"] }
serde_json = "1"
tokio = { version = "1", features = ["fs", "process", "io-util", "time", "macros", "rt-multi-thread"] }
tauri = { version = "2", default-features = false }
tauri-plugin-dialog = { version = "2", default-features = false }
