[package]
name = "spoke"
version = "0.1.0"
edition = "2021"
publish = false

[dependencies]
unicode-ident = "1"
proc-macro2 = "1"
litrs = "*"
