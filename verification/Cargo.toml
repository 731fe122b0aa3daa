[package]
name = "toast"
version = "0.1.0"
edition = "2021"
publish = false

[dependencies]
serde = { version = "*", features = ["derive"] }
serde_json = "*"
tide = "*"
async-std = { version = "*", features = ["attributes"] }
crossbeam = "*"
walkdir = "*"
fs_extra = "*"
duct = "*"
which = "*"
semver = "*"
structopt = "*"
dunce = "*"
indicatif = "*"
