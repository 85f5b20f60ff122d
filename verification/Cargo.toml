[package]
name = "proxychains"
version = "0.1.0"
edition = "2021"
publish = false

[dependencies]
rand = "0.7"
futures = "0.3"
libc = "0.2"
tokio = { version = "0.2", features = ["full"] }
socks5-async = "*"
toml = "0.5"
serde = { version = "1.0", features = ["derive"] }
serde_derive = "1.0"
