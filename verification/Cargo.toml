[package]
name = "uniswap_v2"
version = "0.1.0"
edition = "2021"
publish = false

[dependencies]
primitive-types = "=0.14.0"
sp-arithmetic = "=29.0.0"
ink = "=4.3.0"
parity-scale-codec = { version = "=3.7.5", features = ["derive"] }
