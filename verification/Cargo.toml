[package]
name = "dvm"
version = "0.1.0"
edition = "2021"
publish = false

[dependencies]
semver = "1"
anyhow = "1"
clap = { version = "4", features = ["derive"] }
clap_complete = "4"
colored = "*"
dirs = "*"
indicatif = "*"
json_minimal = "*"
serde = { version = "1", features = ["derive"] }
serde_json = "1"
tempfile = "3"
tinyget = "*"
which = "*"
