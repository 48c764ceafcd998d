[package]
name = "lazy_mmdb"
version = "0.1.0"
edition = "2021"
publish = false

[dependencies]
maxminddb = "*"
serde_json = "*"
reqwest = { version = "*", default-features = false, features = ["rustls-tls"] }
tokio = { version = "*", features = ["macros", "rt-multi-thread", "time"] }
dotenvy = "*"
dirs = "*"
