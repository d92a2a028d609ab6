[package]
name = "kickstart"
version = "0.1.0"
edition = "2021"
publish = false

[dependencies]
clap = { version = "4", features = ["derive"] }
glob = "0.3"
heck = "0.5"
memchr = "2"
regex = "1"
serde = { version = "1", features = ["derive"] }
tempfile = "3"
tera = { version = "1", default-features = false }
term = "1"
toml = "0.8"
walkdir = "2"
