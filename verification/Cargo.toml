[package]
name = "shell_ai"
version = "0.1.0"
edition = "2021"
publish = false

[dependencies]
anyhow = "=1.0.104"
arboard = { version = "=3.7.0", default-features = false }
clap = { version = "=4.6.7", features = ["derive"] }
clap_complete = "=4.6.11"
colored = "=2.2.0"
crossterm = "=0.28.1"
ctrlc = "3"
dirs = "=5.0.1"
futures = "=0.3.34"
indicatif = "=0.17.11"
is-terminal = "=0.4.17"
log = "=0.4.34"
serde = { version = "=1.0.229", features = ["derive"] }
serde_json = "=1.0.154"
serde_path_to_error = "=0.1.20"
shellexpand = "=3.1.2"
tokio = { version = "=1.54.1", features = ["rt-multi-thread", "macros"] }
toml = "=0.8.23"
ureq = { version = "=3.5.0", features = ["json"] }
