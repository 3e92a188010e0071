[package]
name = "hostcall_timing"
version = "0.1.0"
edition = "2021"
publish = false

[dependencies]
anyhow = "*"
statistical = "*"
structopt = "*"
