[package]
name = "image_utils"
version = "0.1.0"
edition = "2021"
publish = false

[dependencies]
gif = "=0.14.2"
image = { version = "=0.25.10", default-features = false, features = ["png", "jpeg", "gif", "bmp", "webp", "tiff", "ico", "pnm", "hdr"] }
