[package]
name = "prevant"
version = "0.1.0"
edition = "2021"
publish = false

[dependencies]
async-trait = "*"
base64 = "*"
bytesize = "*"
chrono = "*"
failure = "*"
k8s-openapi = { version = "*", features = ["latest"] }
multimap = "*"
secstr = "*"
serde = { version = "*", features = ["derive"] }
serde_json = "*"
