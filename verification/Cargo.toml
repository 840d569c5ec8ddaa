[package]
name = "leek"
version = "0.1.0"
edition = "2021"
publish = false

[dependencies]
jsonrpc-core = "=18.0.0"
jsonrpc-derive = "=18.0.0"
jsonrpc-stdio-server = "=18.0.0"
peg = "*"
serde = { version = "=1.0.229", features = ["derive"] }
tokio = { version = "=1.54.1", features = ["fs", "io-util", "rt", "sync"] }
tower-lsp = "=0.20.0"
url = "=2.5.8"
