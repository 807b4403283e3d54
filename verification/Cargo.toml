[package]
name = "csv_analysis"
version = "0.1.0"
edition = "2021"
publish = false

[dependencies]
csv = "1"
js-sys = "0.3"
serde = { version = "1", features = ["derive"] }
serde-wasm-bindgen = "0.6"
wasm-bindgen = "0.2"
