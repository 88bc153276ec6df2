[package]
name = "passman"
version = "0.1.0"
edition = "2021"
publish = false

[dependencies]
anyhow = "*"
clap = { version = "*", features = ["derive"] }
clap_complete = "*"
dialoguer = "*"
dirs = "*"
git2 = { version = "*", default-features = false }
qrcode = "*"
serde = { version = "*", features = ["derive"] }
serde_json = "*"
tempfile = "*"
which = "*"
