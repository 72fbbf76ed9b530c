[package]
name = "dfm"
version = "0.1.0"
edition = "2021"
publish = false

[dependencies]
regex = "1"
shlex = "1"
shellexpand = "3"
serde = { version = "1", features = ["derive"] }
serde_yaml = "0.9"
serde_json = "1"
walkdir = "2"
rustyline = "*"
log = "0.4"
clap = { version = "4", features = ["derive", "cargo"] }
clap_complete = "4"
