[package]
name = "ctt"
version = "0.1.0"
edition = "2021"
publish = false

[dependencies]
chrono = { version = "=0.4.45", features = ["serde"] }
clap = { version = "=4.6.7", features = ["derive"] }
comfy-table = "=7.2.2"
graphql_client = { version = "=0.14.0", default-features = false, features = ["reqwest-blocking", "reqwest-rustls"] }
reqwest = { version = "=0.11.27", default-features = false, features = ["blocking", "json", "rustls-tls"] }
serde = { version = "=1.0.229", features = ["derive"] }
serde_json = "=1.0.154"
users = "=0.11.0"
munge_auth = "=0.1.1"
