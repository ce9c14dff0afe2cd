[package]
name = "help_center"
version = "0.1.0"
edition = "2021"
publish = false

[dependencies]
anyhow = "=1.0.104"
base64 = "=0.23.1"
cdp-html-shot = "=0.3.0"
kovi = "=0.12.7"
serde = { version = "=1.0.229", features = ["derive"] }
tera = "=2.4.0"
