[package]
name = "skynet"
version = "0.1.0"
edition = "2021"
publish = false

[dependencies]
cached = "=0.9.0"
rand = "=0.7.3"
discord = "=0.8.1"
bastion = "=0.4.5"
serde_json = "=1.0.154"
