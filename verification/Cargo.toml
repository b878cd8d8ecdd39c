[package]
name = "load_thing"
version = "0.1.0"
edition = "2021"
publish = false

[dependencies]
rnix = "*"
native-tls = "0.2"
libloading = "0.8"
