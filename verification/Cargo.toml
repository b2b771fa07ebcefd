[package]
name = "search"
version = "0.1.0"
edition = "2021"
publish = false

[dependencies]
clap = "2"
log = "0.4"
memmap = "0.7"
simplelog = "*"
threadpool = "1"
