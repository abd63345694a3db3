[package]
name = "rscheme"
version = "0.1.0"
edition = "2021"
publish = false

[dependencies]
log = "0.3"
rustc_apfloat = "0.2"
