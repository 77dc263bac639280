[package]
name = "wit_bindgen_zig"
version = "0.1.0"
edition = "2021"
publish = false

[dependencies]
anyhow = "*"
clap = { version = "*", features = ["derive"] }
heck = "*"
wit-bindgen-core = "*"
