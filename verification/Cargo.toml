[package]
name = "gdq_tracker"
version = "0.1.0"
edition = "2021"
publish = false

[dependencies]
chrono = "=0.4.45"
regex = "=1.13.1"
kuchiki = "=0.8.1"
hyper = "=0.10.16"
hyper-native-tls = "=0.3.0"
rusqlite = { version = "=0.31.0", features = ["bundled", "chrono"] }
postgres = { version = "=0.19.14", features = ["with-chrono-0_4"] }
rocket = { version = "=0.5.2", features = ["json"] }
serde = { version = "=1.0.229", features = ["derive"] }
serde_derive = "=1.0.229"
serde_json = "=1.0.154"
pbr = "=1.1.1"
