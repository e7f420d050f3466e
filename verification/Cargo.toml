[package]
name = "bubblefish_core"
version = "0.1.0"
edition = "2021"
publish = false

[dependencies]
md-5 = "=0.10.6"
serde = { version = "=1.0.229", features = ["derive"] }
serde_json = "=1.0.154"
chrono = "=0.4.45"
tar = "=0.4.46"
flate2 = "=1.1.10"
uuid = { version = "=1.29.0", features = ["v4"] }
once_cell = "=1.21.4"
base64 = "0.22"
image = { version = "0.25", default-features = false, features = ["jpeg", "png", "gif", "webp", "bmp"] }
fast_image_resize = "*"
