[package]
name = "lsystem"
version = "0.1.0"
edition = "2021"
publish = false

[dependencies]
rand = "0.8"
nalgebra = "*"
serde = "1"
serde_derive = "1"
