[package]
name = "lsys"
version = "0.1.0"
edition = "2021"
publish = false

[dependencies]
regex = "1"
chrono = "0.4"
serde = { version = "1", features = ["derive"] }
serde_json = "1"
lettre = { version = "0.11", features = ["tokio1", "tokio1-native-tls"] }
tera = "1"
tokio = { version = "1", features = ["rt", "sync", "time", "macros"] }
tracing = "0.1"
async-trait = "0.1"
redis = { version = "*", features = ["tokio-comp"] }
deadpool-redis = "*"
