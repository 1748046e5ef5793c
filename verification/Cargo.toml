[package]
name = "gears_wasm"
version = "0.1.0"
edition = "2021"
publish = false

[dependencies]
anyhow = "=1.0.104"
bech32 = "=0.11.1"
clap = { version = "=4.6.7", features = ["derive"] }
cosmos-sdk-proto = { version = "=0.27.0", default-features = false, features = ["cosmwasm"] }
cosmwasm-std = "=2.3.6"
data-encoding = "=2.11.1"
hex = "=0.4.3"
prost = "=0.13.5"
serde = { version = "=1.0.229", features = ["derive"] }
serde_json = "=1.0.154"
sha2 = "=0.10.9"
tendermint = "=0.40.4"
thiserror = "=1.0.69"
tracing = "=0.1.44"
vec1 = "=1.12.1"
