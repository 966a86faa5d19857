[package]
name = "effects"
version = "0.1.0"
edition = "2021"
publish = false

[dependencies]
bytemuck = { version = "*", features = ["derive"] }
serde = { version = "*", features = ["derive"] }
serde-wasm-bindgen = "*"
thiserror = "*"
wasm-bindgen = "*"
wgpu = "*"
