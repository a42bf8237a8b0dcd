[package]
name = "portal_core"
version = "0.1.0"
edition = "2021"
publish = false

[dependencies]
rand = "=0.8.8"
cddl-cat = "=0.6.2"
serde_cbor = "=0.11.2"

[dev-dependencies]
minicbor = { version = "=0.19.1", features = ["std"] }
