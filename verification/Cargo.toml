[package]
name = "rpilot"
version = "0.1.0"
edition = "2021"
publish = false

[dependencies]
ring = "*"
base64 = "0.13"
uuid = { version = "*", features = ["v4"] }
directories = "*"
structopt = "*"
log = "*"
env_logger = "*"
edit = "*"
thiserror = "*"
