[package]
name = "coordinator_substrate"
version = "0.1.0"
edition = "2021"
publish = false

[dependencies]
borsh = { version = "=1.8.1", features = ["derive"] }
log = "=0.4.35"
rand_core = { version = "=0.6.4", features = ["getrandom"] }
schnorrkel = "=0.11.5"
