[package]
name = "template_layout"
version = "0.1.0"
edition = "2021"
publish = false

[dependencies]
csscolorparser = "0.6"
font-kit = "0.11"
image = { version = "0.24", default-features = false, features = ["png", "jpeg"] }
rusttype = "0.9"
serde = { version = "1", features = ["derive"] }
serde_json = "1"
