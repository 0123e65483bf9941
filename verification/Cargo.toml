[package]
name = "manifest_codec"
version = "0.1.0"
edition = "2021"
publish = false

[dependencies]
flate2 = "*"
sha1 = "*"
widestring = "*"
serde = { version = "*", features = ["derive"] }
serde_json = "*"
wasm-bindgen = "*"
