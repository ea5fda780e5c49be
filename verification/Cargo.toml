[package]
name = "kv_vfs"
version = "0.1.0"
edition = "2021"
publish = false

[dependencies]
async-trait = "*"
tokio = { version = "*", features = ["rt-multi-thread", "macros"] }
