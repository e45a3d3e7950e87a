[package]
name = "iku"
version = "0.1.0"
edition = "2021"
publish = false

[dependencies]
regex = "1"
structopt = "0.3"
lalrpop-util = "*"
