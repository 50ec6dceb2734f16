[package]
name = "worktime"
version = "0.1.0"
edition = "2021"
publish = false

[dependencies]
chrono = "*"
clap = "*"
env_logger = "*"
log = "*"
