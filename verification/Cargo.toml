[package]
name = "hg_cmdserver"
version = "0.1.0"
edition = "2021"
publish = false

[dependencies]
byteorder = "1"
failure = "0.1"
