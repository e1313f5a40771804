[package]
name = "pemmican"
version = "0.1.0"
edition = "2021"
publish = false

[dependencies]
chashmap = "*"
cookie = "*"
textnonce = "*"
futures-cpupool = "0.1"
futures = "0.1"
hyper = "0.12"
http = "0.1"
log = "0.4"
