[package]
name = "wasi_selector"
version = "0.1.0"
edition = "2021"
publish = false

[dependencies]
log = "=0.4.34"
wasix = "=0.12.21"
