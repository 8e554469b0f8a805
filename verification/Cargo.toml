[package]
name = "petridish"
version = "0.1.0"
edition = "2021"
publish = false

[dependencies]
anyhow = "*"
clap = { version = "*", features = ["derive"] }
crossterm = "*"
dialoguer = "*"
dirs = "*"
git2 = { version = "*", default-features = false }
inquire = "*"
md5 = "*"
regex = "*"
serde = { version = "*", features = ["derive"] }
serde_yaml = "*"
structopt = "*"
tabled = "*"
tempdir = "*"
tera = "*"
termimad = "*"
thiserror = "*"
toml = "*"
walkdir = "*"
