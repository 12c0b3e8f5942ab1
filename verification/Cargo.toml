[package]
name = "rsa_pkcs1"
version = "0.1.0"
edition = "2021"

[dependencies]
untrusted = "0.9.0"
