[package]
name = "gup"
version = "0.1.0"
edition = "2021"
publish = false

[dependencies]
semver = "1"
url = "2"
anyhow = "1"
serde = { version = "1", features = ["derive"] }
serde_json = "1"
chrono = { version = "0.4", features = ["serde"] }
clap = { version = "4", features = ["derive"] }
clap_complete = "4"
console = "*"
dialoguer = "*"
indicatif = "*"
reqwest = { version = "0.12", default-features = false, features = ["blocking", "rustls-tls"] }
cli-table = "0.4"
human-sort = "0.2"
itertools = "*"
log = "0.4"
env_logger = "*"
human-panic = "*"
flate2 = "1"
tar = "0.4"
zip = { version = "2", default-features = false, features = ["deflate"] }
tempfile = "3"
path-absolutize = "3"
shellexpand = "3"
