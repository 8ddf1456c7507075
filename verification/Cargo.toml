[package]
name = "bf_codegen"
version = "0.1.0"
edition = "2021"
publish = false

[dependencies]
eval = "*"
convert_case = "*"
minidom = "*"
serde = { version = "*", features = ["derive"] }
serde_yaml = "*"
clap = { version = "*", features = ["derive"] }
log = "*"
env_logger = "*"
