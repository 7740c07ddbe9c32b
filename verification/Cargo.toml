[package]
name = "cc_log"
version = "0.1.0"
edition = "2021"
publish = false

[dependencies]
fnv = "=1.0.7"

[dev-dependencies]
regex = "=1.13.1"
