[package]
name = "kurswahl"
version = "0.1.0"
edition = "2021"
publish = false

[dependencies]
boa_engine = "=0.20.0"
boa_gc = "=0.20.0"
console_error_panic_hook = "=0.1.7"
eframe = { version = "=0.20.1", default-features = false, features = ["default_fonts", "glow"] }
wasm-bindgen-futures = "=0.4.79"
