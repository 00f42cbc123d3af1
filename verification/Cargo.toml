[package]
name = "afrs"
version = "0.1.0"
edition = "2021"
publish = false

[dependencies]
gjson = "=0.8.1"
regex = "=1.13.1"
serde = { version = "=1.0.229", features = ["derive"] }
serde_json = "=1.0.154"
structopt = "=0.3.26"
