[package]
name = "raw_processor"
version = "0.1.0"
edition = "2021"
publish = false

[dependencies]
rawloader = "0.37"
serde = { version = "1", features = ["derive"] }
wasm-bindgen = "0.2"
js-sys = "0.3"
serde-wasm-bindgen = "0.6"
