[package]
name = "procfd"
version = "0.1.0"
edition = "2021"
publish = false

[dependencies]
clap = { version = "*", features = ["derive"] }
dns-lookup = "*"
eyre = "*"
itertools = "*"
prettytable-rs = "*"
rayon = "*"
regex = "*"
serde = { version = "*", features = ["derive"] }
serde_json = "*"
uzers = "*"
