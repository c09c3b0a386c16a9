[package]
name = "lexia"
version = "0.1.0"
edition = "2021"
publish = false

[dependencies]
pdf-extract = "*"
serde = { version = "1", features = ["derive"] }
reqwest = { version = "0.12", default-features = false, features = ["json", "rustls-tls"] }
tokio = { version = "1", features = ["macros", "rt-multi-thread", "net"] }
axum = { version = "0.7", features = ["multipart"] }
tower-http = { version = "0.5", features = ["cors", "fs"] }
clap = { version = "4", features = ["derive"] }
dotenvy = "0.15"
colored = "2"
indicatif = "0.17"
