[package]
name = "rhymuweb_client"
version = "1.0.0"
edition = "2021"
publish = false

[dependencies]
async-std = "1"
async-tls = "0.10"
async-trait = "0.1"
futures = "0.3"
pantry = "*"
rhymessage = "*"
rhymuri = "*"
rhymuweb = "*"
rustls = "0.18"
thiserror = "1"
