[package]
name = "onitamalib"
version = "0.1.0"
edition = "2021"
publish = false

[dependencies]
rand = "0.8"
enum-iterator = "0.7"
log = "0.4"
serde = { version = "1", features = ["derive"] }
serde-wasm-bindgen = "*"
wasm-bindgen = "0.2"
