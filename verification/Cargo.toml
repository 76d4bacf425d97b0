[package]
name = "rs_tex"
version = "0.1.0"
edition = "2021"
publish = false

[dependencies]
kpathsea = "*"
lazy_static = "*"
