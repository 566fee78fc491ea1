[package]
name = "quadratic_funding"
version = "0.1.0"
edition = "2021"
publish = false

[dependencies]
sp-runtime = "=2.0.1"
sp-std = "=2.0.1"
frame-support = "=2.0.1"
frame-system = "=2.0.1"
sp-api = "=2.0.1"
sp-blockchain = "2.0.0"
parity-scale-codec = { version = "=1.3.7", features = ["derive"] }
jsonrpc-core = "=15.1.0"
jsonrpc-derive = "=15.1.0"
# sp-core 2.0 is written against schnorrkel 0.9, which later releases of
# substrate-bip39 0.4 no longer hand out.
substrate-bip39 = "=0.4.2"
# The macros of frame-support 2.0 reach into syn::group, which later releases
# of syn 1.0 closed.
syn = "=1.0.58"
