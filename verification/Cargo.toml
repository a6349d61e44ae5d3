[package]
name = "sunrise_zip"
version = "0.1.0"
edition = "2021"
publish = false

[dependencies]
zip = { version = "*", default-features = false, features = ["deflate"] }
anyhow = "*"
clap = { version = "*", features = ["derive"] }
indicatif = "*"
log = "*"
log4rs = "*"
chrono = "*"
nu-ansi-term = "*"
memmap2 = "*"
rayon = "*"
walkdir = "*"
thiserror = "*"
