[package]
name = "thumbnail_purge"
version = "0.1.0"
edition = "2021"
publish = false

[dependencies]
dirs = "*"
md5 = "*"
mime_guess = "*"
notify = "*"
rust-ini = "*"
