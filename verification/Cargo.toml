[package]
name = "sharew"
version = "0.1.0"
edition = "2021"

[dependencies]
anyhow = "=1.0.104"
cairo-rs = { version = "=0.20.12", features = ["png"] }
smithay-client-toolkit = "=0.19.2"

[dev-dependencies]
xkeysym = "=0.2.1"
