[package]
name = "moin_dm"
version = "0.2.0"
edition = "2021"
publish = false

[dependencies]
anyhow = "1"
clap = "2"
cursive = { version = "0.15", default-features = false, features = ["crossterm-backend", "toml"] }
pam = "0.7"
toml = "0.5"
users = "0.11"
