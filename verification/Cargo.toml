[package]
name = "sitegen"
version = "0.1.0"
edition = "2021"
publish = false

[dependencies]
chrono = { version = "=0.4.45", default-features = false, features = ["std"] }
comrak = { version = "0.13", default-features = false }
itertools = "=0.10.5"
maud = "0.23"
serde_yaml = "0.9"
walkdir = "=2.5.0"
