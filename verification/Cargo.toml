[package]
name = "clearglass"
version = "0.1.0"
edition = "2021"
publish = false

[dependencies]
async-trait = "=0.1.92"
http = "=1.5.0"
jsonwebtoken = "=9.3.1"
pingora-core = "=0.9.1"
reqwest = { version = "=0.12.28", default-features = false, features = ["json", "rustls-tls"] }
serde = { version = "1", features = ["derive"] }
serde_json = { version = "=1.0.154", features = ["raw_value"] }
serde_yaml_ng = "=0.10.0"
tokio = { version = "=1.54.1", features = ["sync"] }
tracing = "=0.1.44"
tracing-subscriber = { version = "=0.3.23", features = ["env-filter"] }

[dev-dependencies]
base64 = "=0.22.1"
ed25519-dalek = { version = "=2.2.0", features = ["pkcs8"] }
