[package]
name = "ghostline"
version = "0.1.0"
edition = "2021"
publish = false

[dependencies]
anyhow = "1"
argon2 = "0.5"
chacha20poly1305 = "0.10"
crossterm = "0.28"
crypto_box = { version = "0.9", features = ["chacha20"] }
getrandom = "0.3"
hex = "0.4"
ratatui = "0.29"
serde = { version = "1", features = ["derive"] }
serde-big-array = "0.5"
tokio = { version = "1", features = ["full"] }
toml = "0.9"
zeroize = "1"
