[package]
name = "swayws"
version = "0.1.0"
edition = "2021"
publish = false

[dependencies]
swayipc = "*"
clap = { version = "*", features = ["derive"] }
log = "*"
env_logger = "*"
