[package]
name = "framehash"
version = "0.1.0"
edition = "2021"
publish = false

[dependencies]
fast_image_resize = "*"
anyhow = "*"
ffmpeg-sidecar = "*"
image = "*"

[dev-dependencies]
image_hasher = "*"
