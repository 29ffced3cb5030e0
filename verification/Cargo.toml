[package]
name = "markdown_files"
version = "0.1.0"
edition = "2021"
publish = false

[dependencies]
chardetng = "0.1"
encoding_rs = "0.8"
serde = { version = "1", features = ["derive"] }
tauri = { version = "2", default-features = false }
