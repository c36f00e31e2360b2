[package]
name = "toad"
version = "0.1.0"
edition = "2021"
publish = false

[dependencies]
blake2 = "=0.10.6"
rand = "=0.8.8"
rand_chacha = "=0.3.1"
no-std-net = "=0.6.0"
serde = { version = "=1.0.229", features = ["derive"] }
serde_json = "=1.0.154"
log = "=0.4.35"
nb = "=1.1.0"
