[package]
name = "muadb"
version = "0.1.0"
edition = "2021"
publish = false

[dependencies]
log = "0.4"
colored = "2"
serde = { version = "1", features = ["derive"] }
ciborium = "0.2"

[dev-dependencies]
rand = "0.8"
rand_xoshiro = "0.6"
