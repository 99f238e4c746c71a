[package]
name = "astrobase"
version = "0.1.0"
edition = "2021"
publish = false

[dependencies]
file-lock = "*"
serde = { version = "1", features = ["derive"] }
serde_json = "1"
structopt = "0.3"
