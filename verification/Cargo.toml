[package]
name = "chunk_runtime"
version = "0.1.0"
edition = "2021"
publish = false

[dependencies]
anyhow = "1"
async-trait = "0.1"
rustc-hash = "1.1"
xxhash-rust = { version = "0.8", features = ["xxh3"] }
