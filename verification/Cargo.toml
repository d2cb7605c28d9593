[package]
name = "tabletop"
version = "0.1.0"
edition = "2021"
publish = false

[dependencies]
hecs = "*"
specs = { version = "*", default-features = false }
