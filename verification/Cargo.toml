[package]
name = "runzip"
version = "0.1.0"
edition = "2021"
publish = false

[dependencies]
anyhow = "*"
clap = { version = "*", features = ["derive"] }
flate2 = "*"
reqwest = { version = "*", default-features = false, features = ["blocking"] }
