[package]
name = "boards"
version = "0.1.0"
edition = "2021"
publish = false

[dependencies]
arbitrary-int = "=2.2.0"
log = "=0.4.34"
