[package]
name = "opfs_vfs"
version = "0.1.0"
edition = "2021"
publish = false

[dependencies]
wasm-bindgen = "=0.2.129"
js-sys = "=0.3.106"
libsqlite3-sys = { version = "=0.38.2", features = ["bundled"] }
