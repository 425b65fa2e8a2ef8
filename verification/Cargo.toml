[package]
name = "vote_accumulator"
version = "0.1.0"
edition = "2021"
publish = false

[dependencies]
anyhow = "1"
async-compatibility-layer = "1"
async-trait = "0.1"
bincode = "1"
bitvec = "1"
committable = "0.2"
either = "1"
ethereum-types = "0.14"
portpicker = "0.1"
rand = "0.8"
serde = { version = "1", features = ["derive"] }
tracing = "0.1"
