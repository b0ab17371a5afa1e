[package]
name = "tile_cache"
version = "0.1.0"
edition = "2021"
publish = false

[dependencies]
image = { version = "0.24", default-features = false, features = ["png"] }
textwrap = "0.16"
rand = "0.8"
imageproc = { version = "0.23", default-features = false }
rusttype = "0.9"
slippy-map-tiles = "*"
axum = "0.6"
tokio = { version = "1", features = ["macros", "rt-multi-thread", "fs"] }
reqwest = { version = "0.11", default-features = false }
tracing = "0.1"
tracing-subscriber = "0.3"
