[package]
name = "shieldcoinbase"
version = "0.1.0"
edition = "2021"
publish = false

[dependencies]
documented = "=0.10.0"
jsonrpsee = { version = "=0.26.1", default-features = false, features = ["jsonrpsee-types", "server-core"] }
rand = { version = "=0.10.3", default-features = false, features = ["sys_rng"] }
schemars = "=1.2.3"
secp256k1 = "=0.33.1"
secrecy = "=0.8.0"
serde = { version = "=1.0.229", features = ["derive"] }
serde_json = "=1.0.154"
tokio = { version = "=1.54.1", default-features = false, features = ["rt"] }
tracing = { version = "=0.1.44", default-features = false, features = ["std"] }
uuid = "=1.29.0"
zcash_address = "=0.14.0"
zcash_client_backend = { version = "=0.25.0", features = ["orchard", "transparent-inputs", "transparent-key-import"] }
zcash_client_sqlite = { version = "=0.23.0", features = ["orchard", "transparent-inputs"] }
zcash_keys = { version = "=0.17.0", features = ["orchard", "sapling", "transparent-inputs"] }
zcash_proofs = { version = "=0.31.0", features = ["bundled-prover"] }
zcash_protocol = { version = "=0.11.0", features = ["local-consensus"] }
zcash_script = "=0.6.0"
zcash_transparent = { version = "=0.11.0", features = ["transparent-inputs"] }
