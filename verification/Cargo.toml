[package]
name = "pallets"
version = "0.1.0"
edition = "2021"
publish = false

[dependencies]
lite-json = "=0.2.0"
log = "=0.4.35"
parity-scale-codec = "=3.7.5"
serde = "=1.0.229"
sp-core = "=43.0.0"
sp-io = "=49.0.0"
