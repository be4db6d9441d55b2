[package]
name = "dezl"
version = "0.1.0"
edition = "2021"
publish = false

[dependencies]
unicode_categories = "*"
clap = { version = "*", features = ["derive", "env"] }
ctrlc = "*"
mio = { version = "*", features = ["net", "os-poll"] }
nix = { version = "*", features = ["socket"] }
rand = "*"
serde = { version = "*", features = ["derive"] }
serde_json = "*"
time = { version = "*", features = ["std", "formatting"] }
tungstenite = "*"
users = "*"
