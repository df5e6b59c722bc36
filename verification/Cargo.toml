[package]
name = "light_client"
version = "0.1.0"
edition = "2021"
publish = false

[dependencies]
fnv = "1"
futures = "0.3"
hashbrown = "*"
log = "0.4"
rand = "*"
smoldot = { version = "*", default-features = false }
