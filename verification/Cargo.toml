[package]
name = "sound"
version = "0.1.0"
edition = "2021"
publish = false

[dependencies]
realfft = "=3.5.0"
rustfft = "=6.4.1"
wasm-bindgen = "=0.2.92"
