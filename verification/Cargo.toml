[package]
name = "embedded_rust_debugger"
version = "0.1.0"
edition = "2021"
publish = false

[dependencies]
anyhow = "=1.0.104"
capstone = "=0.10.0"
crossbeam-channel = "0.5"
debugserver-types = "=0.5.0"
gimli = "=0.23.0"
log = "0.4"
probe-rs = "0.13"
rust-debug = "=0.0.1"
