[package]
name = "zallet"
version = "0.1.0"
edition = "2021"
publish = false

[dependencies]
age = "=0.11.5"
documented = "=0.10.0"
jsonrpsee = { version = "=0.24.11", features = ["macros", "server"] }
schemars = "=1.2.3"
serde = { version = "=1.0.229", features = ["derive"] }
zcash_client_backend = "=0.25.0"
zcash_client_sqlite = "*"
zcash_protocol = "=0.11.0"
