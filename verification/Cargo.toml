[package]
name = "async_ws"
version = "0.1.0"
edition = "2021"
publish = false

[dependencies]
ring = "0.17"
base64 = "0.13"
rand = "0.8"
futures = "0.3"
futures-lite = "2"
async-io = "2"
thiserror = "1"
http = "1"
