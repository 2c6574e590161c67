[package]
name = "partial_load_cursor"
version = "0.1.0"
edition = "2021"
publish = false

[dependencies]
byteorder = "1"
wasm-bindgen = "0.2"
wasm-bindgen-futures = "0.4"
web-sys = { version = "0.3", features = ["Blob", "File", "FileReader", "ProgressEvent", "console"] }
