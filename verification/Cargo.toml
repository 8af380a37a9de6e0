[package]
name = "netty"
version = "0.1.0"
edition = "2021"
publish = false

[dependencies]
tungstenite = "0.20"
websocket = { version = "0.26", default-features = false, features = ["sync"] }
wasm-bindgen = "0.2"
js-sys = "0.3"
web-sys = { version = "0.3", features = ["WebSocket", "MessageEvent", "BinaryType", "Blob", "FileReader", "ProgressEvent", "ErrorEvent"] }
