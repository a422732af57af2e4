[package]
name = "sway_ir"
version = "0.1.0"
edition = "2021"
publish = false

[dependencies]
anyhow = "1"
clap = { version = "3", features = ["derive"] }
generational-arena = "0.2"
rustc-hash = "1.1"
