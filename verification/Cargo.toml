[package]
name = "digit_synthesis"
version = "0.1.0"
edition = "2021"
publish = false

[dependencies]
clap = { version = "4", features = ["cargo"] }
csv = "1"
image = { version = "0.24", default-features = false, features = ["png", "gif"] }
puffpastry = "*"
rand = "0.8"
serde = { version = "1", features = ["derive"] }
serde_json = "1"
