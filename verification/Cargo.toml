[package]
name = "fetch-source"
version = "0.2.0"
edition = "2021"
publish = false

[dependencies]
toml = "0.9"
sha2 = "0.10"
serde = { version = "1", features = ["derive"] }
serde_json = "1"
clap = { version = "4", features = ["derive"] }
anstyle = "1"
reqwest = { version = "0.12", default-features = false, features = ["blocking", "rustls-tls"] }
flate2 = "1"
tar = "0.4"
dircpy = "0.3"
console = "0.16"
indicatif = "0.18"
rayon = "1"
directories = "6"
thiserror = "2"

[dev-dependencies]
tempfile = "3"
