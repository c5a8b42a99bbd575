[package]
name = "unlink"
version = "0.1.0"
edition = "2021"
publish = false

[dependencies]
arbitrary = { version = "1", features = ["derive"] }

[dev-dependencies]
rand = "0.8"
