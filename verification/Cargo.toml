[package]
name = "sysplay"
version = "0.1.0"
edition = "2021"
publish = false

[dependencies]
hex = "=0.4.3"
sha2 = "=0.10.9"
thiserror = "=1.0.69"
widestring = "1"
