[package]
name = "http_props"
version = "0.1.0"
edition = "2021"
publish = false

[dependencies]
percent-encoding = "=2.3.2"
hyper = "=1.12.0"
