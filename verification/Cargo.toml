[package]
name = "oauth2_core"
version = "0.1.0"
edition = "2021"
publish = false

[dependencies]
rand = "0.8"
actix-web = "4"
actix-route-config = "*"
serde = { version = "1", features = ["derive"] }
thiserror = "1"
time = "0.3"
tokio = { version = "1", features = ["sync"] }
