[package]
name = "steelsafe"
version = "0.1.0"
edition = "2021"
publish = false

[dependencies]
argon2 = "=0.5.3"
chacha20poly1305 = "=0.10.1"
rand = "=0.8.8"
zeroize = "=1.9.1"
chrono = "=0.4.45"
serde = { version = "=1.0.229", features = ["derive"] }
serde_json = "=1.0.151"
thiserror = "=1.0.69"
directories = "=6.0.0"
ratatui = "=0.28.1"
tui-textarea = "=0.6.1"
arboard = "=3.6.1"
nanosql = "=0.12.0"
