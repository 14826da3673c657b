[package]
name = "flora"
version = "0.1.0"
edition = "2021"
publish = false

[dependencies]
ico = "*"
infer = "*"
lnk = "*"
pelite = "*"
shlex = "*"
xdg-mime = "*"
directories = "*"
whoami = "*"
clap = { version = "*", features = ["derive"] }
serde = { version = "*", features = ["derive"] }
toml = "*"
tabled = "*"
env_logger = "*"
walkdir = "*"
