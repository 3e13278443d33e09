[package]
name = "nessie-identity"
version = "0.1.0"
edition = "2021"
publish = false

[dependencies]
agent-mesh-protocol = "=0.8.3"
serde = { version = "=1.0.229", features = ["derive"] }
thiserror = "=2.0.21"
