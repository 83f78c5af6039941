[package]
name = "zj-sysinfo"
version = "0.1.0"
edition = "2021"
publish = false

[dependencies]
getrandom = "=0.2.17"
zellij-tile = "=0.44.3"
