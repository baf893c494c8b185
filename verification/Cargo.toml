[package]
name = "niri"
version = "0.1.0"
edition = "2021"
publish = false

[dependencies]
shlex = "1.3"
knuffel = "3.2"
tracing = "0.1"
