[package]
name = "move_compiler_wasm"
version = "0.1.0"
edition = "2021"
publish = false

[dependencies]
bcs = "0.1"
move-core-types = "0.0.3"
serde = { version = "1", features = ["derive"] }
serde_bytes = "0.11"
serde-wasm-bindgen = "0.6"
wasm-bindgen = "0.2"
