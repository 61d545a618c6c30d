[package]
name = "drawio_headless"
version = "0.1.0"
edition = "2021"
publish = false

[dependencies]
base64 = "0.22"
flate2 = "1"
percent-encoding = "2"
quick-xml = "0.36"
serde = { version = "1", features = ["derive"] }
serde_json = "1"
clap = { version = "4", features = ["derive"] }
resvg = "0.45"
tiny-skia = "0.11"
thiserror = "2"
