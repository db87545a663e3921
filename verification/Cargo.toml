[package]
name = "carboxyl_time"
version = "0.1.0"
edition = "2021"
publish = false

[dependencies]
carboxyl = "*"
lazy_static = "*"
time = "0.1"
