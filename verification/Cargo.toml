[package]
name = "ichigocrate"
version = "0.1.0"
edition = "2021"
publish = false

[dependencies]
base64 = "*"
thiserror = "*"
egui = { version = "*", default-features = false }
web-sys = { version = "*", features = ["Window", "Storage"] }
os_pipe = "*"
rustix = { version = "*", features = ["stdio"] }
