[package]
name = "neocalc_core"
version = "0.1.0"
edition = "2021"
publish = false

[dependencies]
num = "=0.4.3"
num-bigint = "=0.4.8"
num-complex = "=0.4.6"
num-rational = "=0.4.2"
num-traits = "=0.2.19"
serde = { version = "=1.0.229", features = ["derive"] }
serde_json = "=1.0.151"
thiserror = "*"
uuid = { version = "*", features = ["v4"] }
