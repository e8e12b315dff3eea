[package]
name = "rslint_staged"
version = "0.1.0"
edition = "2021"
publish = false

[dependencies]
globset = "0.4"
serde_json = "1"
clap = { version = "3", features = ["derive"] }
git2 = { version = "*", default-features = false }
rayon = "1"
log = "0.4"
simple_logger = "*"
