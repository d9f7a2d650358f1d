[package]
name = "i3f"
version = "0.1.0"
edition = "2021"
publish = false

[dependencies]
image = { version = "0.25", default-features = false, features = ["jpeg", "png", "gif", "tiff", "webp"] }
imageproc = { version = "0.25", default-features = false }
url = "2"
urlencoding = "2"
serde = { version = "1", features = ["derive"] }
thiserror = "1"

[dev-dependencies]
lopdf = "*"
