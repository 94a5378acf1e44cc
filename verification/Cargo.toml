[package]
name = "vpk_pack"
version = "0.1.0"
edition = "2021"
publish = false

[dependencies]
clap = "2.33"
exitcode = "1.1"
zip = { version = "0.6", default-features = false }
