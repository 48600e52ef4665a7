[package]
name = "ffserve"
version = "0.1.0"
edition = "2021"
publish = false

[dependencies]
regex = "1"
uuid = { version = "1", features = ["v4"] }
serde = { version = "1", features = ["derive"] }
actix-web = "4"
awc = "3"
futures = "0.3"
tokio = { version = "1", features = ["fs", "io-util"] }
reqwest = { version = "0.11", default-features = false, features = ["blocking"] }
