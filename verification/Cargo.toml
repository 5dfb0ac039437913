[package]
name = "qoi_decode"
version = "0.1.0"
edition = "2021"
publish = false

[dependencies]
wasm-bindgen = "0.2"
web-sys = { version = "0.3", features = ["ImageData"] }
wee_alloc = "0.4"
