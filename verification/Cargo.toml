[package]
name = "xp3"
version = "0.1.0"
edition = "2021"
publish = false

[dependencies]
adler32 = "1"
encoding = "0.2"
flate2 = "1"
