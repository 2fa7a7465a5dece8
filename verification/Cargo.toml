[package]
name = "getman"
version = "0.1.0"
edition = "2021"
publish = false

[dependencies]
eframe = { version = "0.29", default-features = false, features = ["default_fonts", "glow", "x11"] }
http = "1"
reqwest = "0.12"
serde_json = "1"
tokio = { version = "1", features = ["rt-multi-thread"] }
