[package]
name = "axum_browser_adapter"
version = "0.1.0"
edition = "2021"
publish = false

[dependencies]
axum = "0.6"
http-body = "0.4"
serde = { version = "1", features = ["derive"] }
serde-wasm-bindgen = "0.5"
tower-service = "0.3"
wasm-bindgen = "0.2"
