[package]
name = "btc_lib"
version = "0.1.0"
edition = "2021"
publish = false

[dependencies]
sha2 = "*"
crossterm = "*"

[dev-dependencies]
