[package]
name = "ttml_processor"
version = "0.1.0"
edition = "2021"
publish = false

[dependencies]
quick-xml = "0.38"
indexmap = { version = "2", features = ["serde"] }
serde = { version = "1", features = ["derive"] }
serde_with = "3"
thiserror = "2"
wasm-bindgen = "0.2"
js-sys = "0.3"
serde-wasm-bindgen = "0.6"
console_error_panic_hook = "0.1"
compact_str = { version = "0.9", features = ["serde"] }
