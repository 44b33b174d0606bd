[package]
name = "pxtxt"
version = "0.1.0"
edition = "2021"
publish = false

[dependencies]
ahash = "0.8"
image = { version = "0.25", default-features = false, features = ["png", "jpeg", "gif", "tiff"] }
ron = "0.8"
serde = { version = "1.0", features = ["derive"] }
thiserror = "1.0"
