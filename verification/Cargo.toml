[package]
name = "chessbot"
version = "0.1.0"
edition = "2021"
publish = false

[dependencies]
chess = "3.2"
anyhow = "1"
colored = "2"
candle-core = "*"
candle-nn = "*"
wasm-bindgen = "0.2"
web-sys = { version = "0.3", features = ["console"] }
wee_alloc = "0.4"
console_error_panic_hook = "0.1"
