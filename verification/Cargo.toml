[package]
name = "bucky_raw_codec"
version = "0.1.0"
edition = "2021"
publish = false

[dependencies]
protobuf = "2"
hex = "0.4"
