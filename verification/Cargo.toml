[package]
name = "doxie"
version = "0.1.0"
edition = "2021"
publish = false

[dependencies]
url = "2"
json = "0.12"
reqwest = { version = "0.12", default-features = false, features = ["blocking"] }
clap = "4"
ssdp = "*"
