[package]
name = "zenavif-parse"
version = "0.1.0"
edition = "2021"
publish = false

[dependencies]
arrayvec = "0.7"
bitreader = "0.3"
byteorder = "1"
enough = "*"
fallible_collections = "*"
