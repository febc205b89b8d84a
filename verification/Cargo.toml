[package]
name = "oxitailr"
version = "0.3.1"
edition = "2021"
publish = false

[dependencies]
regex = "1"
chrono = "0.4"
serde = { version = "1", features = ["derive"] }
serde_json = "1"
toml = "0.8"
aes-gcm = "0.10"
argon2 = "0.5"
base64 = "0.22"
rand = "0.8"
dirs = "5"
tokio = { version = "1", features = ["full"] }
anyhow = "1"
tracing = "0.1"
clap = { version = "4", features = ["derive"] }
crossterm = { version = "0.28", features = ["event-stream"] }
ratatui = "0.29"
futures = "0.3"
russh = "0.44"
russh-keys = "0.44"
shlex = "1"
reqwest = { version = "0.12", default-features = false, features = ["json", "rustls-tls"] }
notify-rust = "4"
async-trait = "0.1"
glob = "0.3"

[dev-dependencies]
tempfile = "3"
