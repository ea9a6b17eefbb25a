[package]
name = "hxdown"
version = "0.1.0"
edition = "2021"
publish = false

[dependencies]
regex = "1"
select = "0.6"
reqwest = { version = "0.11", default-features = false, features = ["rustls-tls"] }
http = "0.2"
tokio = { version = "1", features = ["macros", "rt-multi-thread", "time", "fs", "io-util"] }
bytes = "1"
serde = { version = "1", features = ["derive"] }
serde_json = "1"
async-trait = "0.1"
