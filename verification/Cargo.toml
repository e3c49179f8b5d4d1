[package]
name = "encrypted_chat"
version = "0.1.0"
edition = "2021"
publish = false

[dependencies]
num = "0.4"
openssl = "0.10"
rand = "0.8"
plotters = { version = "0.3", default-features = false, features = ["bitmap_backend", "bitmap_encoder", "line_series"] }
