[package]
name = "rlox"
version = "0.1.0"
edition = "2021"
publish = false

[dependencies]
anyhow = "1"
log = "0.4"
simple_logger = "*"
structopt = "0.3"
