[package]
name = "chat_tunnel"
version = "0.1.0"
edition = "2021"
publish = false

[dependencies]
anyhow = "1"
base116 = "*"
base85 = "*"
clap = { version = "4", features = ["derive"] }
serenity = "0.12"
tokio = { version = "1", features = ["full"] }
tun = { version = "0.6", features = ["async"] }
