[package]
name = "reconciler"
version = "0.1.0"
edition = "2021"
publish = false

[dependencies]
bevy = { version = "=0.11.3", default-features = false }
futures = "=0.3.34"
gloo-net = { version = "=0.4.0", default-features = false, features = ["websocket"] }
names = { version = "=0.14.0", default-features = false }
serde = { version = "=1.0.229", features = ["derive"] }
serde_json = "=1.0.154"
speedy = { version = "=0.8.7", features = ["uuid"] }
uuid = { version = "=1.29.0", features = ["serde"] }
wasm-bindgen-futures = "=0.4.79"
