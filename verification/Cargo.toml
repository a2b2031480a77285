[package]
name = "blend2zip"
version = "0.1.0"
edition = "2021"
publish = false

[dependencies]
align-address = "=0.4.0"
clap = { version = "=4.6.7", features = ["derive"] }
globset = "=0.4.20"
tar = "=0.4.46"
zip_next = { version = "=0.11.0", default-features = false, features = ["deflate"] }
