[package]
name = "kolab"
version = "0.1.0"
edition = "2021"
publish = false

[dependencies]
litemap = "*"
sha2 = "*"
rand = "*"
serde = { version = "*", features = ["derive"] }
serde_json = "*"
async-channel = "*"
async-fs = "*"
async-io = "*"
async-lock = "*"
async-net = "*"
async-tungstenite = "*"
futures-lite = "*"
futures-util = "*"
infer = "*"
