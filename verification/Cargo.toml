[package]
name = "darkrelay"
version = "0.1.0"
edition = "2021"
publish = false

[dependencies]
aes-gcm = "0.10"
argon2 = { version = "0.5", features = ["std"] }
bincode = "1.3"
chrono = { version = "0.4", features = ["serde"] }
crossterm = "0.27"
hex = "0.4"
itertools = "0.12"
pbkdf2 = "0.12"
rand = "0.8"
ratatui = "0.23"
rcgen = "0.11"
rustls = { version = "0.21", features = ["dangerous_configuration"] }
rustls-pemfile = "1.0"
serde = { version = "1.0", features = ["derive"] }
sha2 = "0.10"
tokio = { version = "1", features = ["full"] }
tokio-rustls = "0.24"
tracing = "0.1"
tracing-subscriber = { version = "0.3", features = ["env-filter", "json"] }
x25519-dalek = "2.0"
