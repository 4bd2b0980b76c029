[package]
name = "thisenum"
version = "0.1.0"
edition = "2021"
publish = false

[dependencies]
syn = "1.0"
proc-macro2 = "1.0"
