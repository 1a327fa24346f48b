[package]
name = "zcashlc"
version = "0.1.0"
edition = "2021"
publish = false

[dependencies]
failure = "=0.1.8"
ffi_helpers = "=0.1.0"
hex = "=0.3.2"
rand = "=0.10.3"
rusqlite = "=0.37.0"
secrecy = "=0.8.0"
zcash_client_backend = "=0.25.0"
zcash_client_sqlite = "=0.23.0"
zcash_primitives = "=0.31.0"
zcash_proofs = "=0.31.0"
zcash_protocol = "=0.11.0"
