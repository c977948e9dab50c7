[package]
name = "zip"
version = "0.1.0"
edition = "2021"
publish = false

[dependencies]
codepage-437 = "=0.1.0"
crc32fast = "=1.5.3"
flate2 = "=1.1.10"
time = "=0.3.55"
