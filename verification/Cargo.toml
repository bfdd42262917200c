[package]
name = "zk_regex"
version = "0.1.0"
edition = "2021"
publish = false

[dependencies]
fancy-regex = "*"
halo2-base = "*"
js-sys = "0.3"
plotters = { version = "0.3", default-features = false, features = ["bitmap_backend", "bitmap_encoder"] }
rand = "0.8"
serde_json = "1"
wasm-bindgen = "0.2"
