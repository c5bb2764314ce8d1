[package]
name = "ser_lib"
version = "0.1.0"
edition = "2021"
publish = false

[dependencies]
anyhow = "1"
atty = "0.2"
clap = { version = "4", features = ["derive"] }
dialoguer = "*"
dirs = "*"
plist = "1"
tabled = "*"
