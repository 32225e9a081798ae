[package]
name = "paymoncoin"
version = "0.1.0"
edition = "2021"
publish = false

[dependencies]
mio = "0.6"
futures = "0.1"
