[package]
name = "arti-pipes"
version = "0.1.0"
edition = "2021"
publish = false

[dependencies]
async-stream = "0.3"
async-trait = "0.1"
futures = "0.3"
js-sys = "0.3"
reqwest = { version = "0.12", default-features = false, features = ["json", "stream"] }
schemars = "1"
serde = { version = "1", features = ["derive"] }
serde_json = "1"
thiserror = "2"
tokio = { version = "1", features = ["sync", "rt", "macros"] }
tokio-stream = "0.1"
uuid = { version = "1", features = ["v4"] }
wasm-bindgen = "0.2"
wasm-bindgen-futures = "0.4"
web-sys = { version = "0.3", features = ["Headers", "ReadableStream", "ReadableStreamDefaultReader", "Request", "RequestInit", "Response"] }
web-time = "1"
