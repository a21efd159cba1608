[package]
name = "rsinit"
version = "0.1.0"
edition = "2021"
publish = false

[dependencies]
getrandom = "0.2"
log = "0.4"
nix = { version = "0.30", default-features = false, features = ["fs", "ioctl", "mount", "process", "reboot", "term"] }
