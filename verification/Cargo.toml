[package]
name = "eventwatch"
version = "0.1.0"
edition = "2021"
publish = false

[dependencies]
anyhow = "1"
clap = { version = "4", features = ["derive"] }
clap_complete = "4"
env_logger = "0.10"
fake-tty = "*"
globset = "0.4"
humantime = "2"
itertools = "0.10"
log = "0.4"
notify = "6"
shlex = "1"
strum = { version = "0.25", features = ["derive"] }
