[package]
name = "pwmanager"
version = "0.1.0"
edition = "2021"
publish = false

[dependencies]
argon2 = "0.5"
chacha20poly1305 = "0.10"
password-hash = "0.5"
rand = "0.8"
ron = "0.8"
serde = { version = "1", features = ["derive"] }
serde_json = "1"
tui = "0.19"
crossterm = "0.25"
clipboard = "0.5"
