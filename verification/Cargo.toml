[package]
name = "quickcfg"
version = "0.1.0"
edition = "2021"
publish = false

[dependencies]
anyhow = "*"
clap = { version = "*", features = ["derive"] }
directories = "*"
filetime = "*"
fxhash = "*"
handlebars = "*"
humantime = "*"
log = "*"
pretty_env_logger = "*"
rayon = "*"
relative-path = "*"
serde = { version = "*", features = ["derive"] }
serde_yaml = "*"
