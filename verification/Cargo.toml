[package]
name = "transcode_core"
version = "0.1.0"
edition = "2021"
publish = false

[dependencies]
chacha20poly1305 = "0.10"
base64 = "0.22"
blake3 = "1"
