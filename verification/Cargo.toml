[package]
name = "pos_bridge"
version = "0.1.0"
edition = "2021"
publish = false

[dependencies]
once_cell = "1"
futures = "0.3"
serde = { version = "1", features = ["derive"] }
serde_json = "1"
jsonrpc-core = "18"
jsonrpc-http-server = "18"
jsonrpc-tcp-server = "18"
jsonrpc-ws-server = "18"
enum_dispatch = "0.3"
