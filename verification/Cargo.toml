[package]
name = "neardesk"
version = "0.1.0"
edition = "2021"
publish = false

[dependencies]
if-addrs = "0.13"
image = { version = "0.24", default-features = false, features = ["png"] }
mdns-sd = "0.11"
