[package]
name = "bletchmame"
version = "0.1.0"
edition = "2021"
publish = false

[dependencies]
hex = "0.4"
crc32fast = "1"
sha1 = "0.10"
hostname-validator = "*"
byte-unit = "5"
