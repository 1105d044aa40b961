[package]
name = "suinput"
version = "0.1.0"
edition = "2021"
publish = false

[dependencies]
thunderdome = "=0.6.1"
dashmap = "=6.2.1"
regex = "=1.13.1"
serde = { version = "=1.0.229", features = ["derive"] }
serde_json = "=1.0.154"
mint = "=0.5.9"
thiserror = "=2.0.21"
nalgebra = { version = "*", features = ["mint"] }
