[package]
name = "vita_pack_vpk"
version = "0.1.0"
edition = "2021"
publish = false

[dependencies]
zip = { version = "0.6", default-features = false }
walkdir = "2"
clap = "4"
exitcode = "1"

[dev-dependencies]
tempfile = "3"
