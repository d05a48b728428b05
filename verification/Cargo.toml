[package]
name = "crate_vis"
version = "0.1.0"
edition = "2021"
publish = false

[dependencies]
clap = { version = "*", features = ["derive"] }
krates = "*"
layout-rs = "*"
serde = { version = "*", features = ["derive"] }
serde_json = "*"
