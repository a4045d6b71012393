[package]
name = "sqlite_wasm_wasi"
version = "0.1.0"
edition = "2021"
publish = false

[dependencies]
rusqlite = { version = "=0.41.1", features = ["bundled"] }
bytemuck = "1"
