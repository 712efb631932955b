[package]
name = "img2text"
version = "0.2.0"
edition = "2021"
publish = false

[dependencies]
anyhow = "*"
clap = { version = "*", features = ["derive"] }
console = "*"
env_logger = "*"
image = "*"
imageproc = "*"
log = "*"
