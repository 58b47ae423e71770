[package]
name = "accelerator_dao"
version = "0.1.0"
edition = "2021"
publish = false

[dependencies]
cosmwasm-std = "=1.5.11"
cosmwasm-schema = "=1.5.11"
cw-utils = "=1.0.3"
cw-storage-plus = "=1.2.0"
cw2 = "=1.1.2"
cw-paginate = "=0.2.1"
neutron-sdk = "=0.6.1"
protobuf = "=3.2.0"
prost = "=0.11.9"
cosmos-sdk-proto = { version = "=0.16.0", default-features = false }
serde = { version = "1.0", default-features = false, features = ["derive"] }
schemars = "=0.8.22"
serde-json-wasm = "=0.5.2"
