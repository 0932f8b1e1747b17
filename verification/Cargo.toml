[package]
name = "ashpaper"
version = "0.1.0"
edition = "2021"
publish = false

[dependencies]
cmudict-fast = "*"
regex = "1"
clap = "2.33"
env_logger = "0.9"
log = "0.4"
thiserror = "1"
cranelift = "0.75"
cranelift-jit = "0.75"
cranelift-module = "0.75"
