[package]
name = "amusing"
version = "0.1.0"
edition = "2021"
publish = false

[dependencies]
anyhow = "=1.0.104"
base64 = "=0.22.1"
clap = { version = "=4.6.7", features = ["derive"] }
dirs = "=7.0.0"
fuzzy-matcher = "=0.3.7"
image = { version = "=0.25.10", default-features = false, features = ["png", "jpeg"] }
itertools = "=0.15.0"
log = "=0.4.34"
ratatui = { version = "=0.30.2", features = ["serde"] }
ratatui-image = { version = "=11.1.0", default-features = false, features = ["crossterm"] }
rayon = "=1.12.0"
serde_json = "=1.0.154"
simple-logging = "=2.0.2"
toml = "=1.1.8"
tui-input = "=0.15.5"
unidecode = "=0.3.0"
