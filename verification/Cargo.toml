[package]
name = "tsupdate"
version = "0.1.0"
edition = "2021"
publish = false

[dependencies]
md5 = "*"
hyper = "0.10"
docopt = "*"
serde = { version = "*", features = ["derive"] }
yaml-rust = "*"
