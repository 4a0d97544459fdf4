[package]
name = "soapy_spec_acc"
version = "0.1.0"
edition = "2021"
publish = false

[dependencies]
binrw = "*"
chrono = "0.4"
clap = { version = "4", features = ["derive"] }
crossbeam = "0.8"
ndarray = "*"
num = "0.4"
