[package]
name = "suffix"
version = "0.1.0"
edition = "2021"
publish = false

[dependencies]
anyhow = "=1.0.104"
clap = { version = "=4.6.7", features = ["derive"] }
dirs = "=6.0.0"
open = "=5.4.5"
rand = "=0.10.3"
regex = "=1.13.1"
reqwest = { version = "=0.12.28", default-features = false, features = ["blocking", "json", "rustls-tls"] }
rpassword = "=7.5.4"
serde = { version = "=1.0.229", features = ["derive"] }
serde_json = "=1.0.154"
somme-cli = "=0.1.1"
url = "=2.5.8"
urlencoding = "=2.1.3"
