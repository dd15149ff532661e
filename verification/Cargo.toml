[package]
name = "looper_processor"
version = "0.1.0"
edition = "2021"
publish = false

[dependencies]
sha3 = "=0.12.0"
hex = "=0.4.3"
anyhow = "=1.0.104"
atomic_refcell = "=0.1.14"
nalgebra = "=0.35.0"
serde = { version = "1", features = ["derive"] }
serde_json = "1"
