[package]
name = "rust_radio"
version = "0.1.0"
edition = "2021"
publish = false

[dependencies]
urlencoding = "2"
serde = { version = "1", features = ["derive"] }
serde_json = "1"
tokio = { version = "1", features = ["rt-multi-thread", "macros"] }
reqwest = { version = "0.12", features = ["json"] }
async-channel = "2"
glib = "0.20"
gtk4 = "0.9"
libadwaita = "0.7"
gstreamer = "0.23"
