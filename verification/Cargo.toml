[package]
name = "lam_machine"
version = "0.1.0"
edition = "2021"
publish = false

[dependencies]
im = "15"
pest = "2"
pest_derive = "2"
lazy_static = "1"
derivative = "2"
