[package]
name = "vimg"
version = "0.1.0"
edition = "2021"
publish = false

[dependencies]
image = { version = "0.25", default-features = false, features = ["png", "jpeg", "gif", "bmp", "tiff", "webp"] }
oxipng = { version = "9", default-features = false, features = ["parallel"] }
ravif = { version = "0.11", default-features = false, features = ["threading"] }
rgb = "0.8"
webp = "0.3"
zip = { version = "7", default-features = false, features = ["deflate"] }
tar = "0.4"
flate2 = "1"
clap = { version = "4.5", features = ["derive"] }
glob = "0.3"
indicatif = "0.17"
rayon = "1.10"
anyhow = "1"
serde = { version = "1", features = ["derive"] }
ureq = { version = "2", features = ["json"] }
self-replace = "1"
windows-registry = "0.2"
