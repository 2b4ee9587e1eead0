[package]
name = "ecs"
version = "0.1.0"
edition = "2021"
publish = false

[dependencies]
hecs = "*"
log = "*"
console_log = "*"
console_error_panic_hook = "*"
serde = { version = "*", features = ["derive"] }
serde-wasm-bindgen = "*"
wasm-bindgen = "*"
