[package]
name = "milestone_escrow"
version = "0.1.0"
edition = "2021"
publish = false

[dependencies]
anyhow = "1"
axum = "*"
blockfrost = "*"
dotenvy = "*"
hex = "0.4"
pallas-addresses = "*"
pallas-codec = "*"
pallas-crypto = "*"
pallas-primitives = "*"
pallas-txbuilder = "*"
reqwest = { version = "*", default-features = false, features = ["json", "rustls-tls"] }
serde = { version = "1", features = ["derive"] }
serde_json = "1"
tokio = { version = "1", features = ["macros", "rt-multi-thread", "net"] }
tower-http = { version = "*", features = ["cors"] }
tracing = "0.1"
tracing-subscriber = "0.3"
