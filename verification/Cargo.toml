[package]
name = "dnd_server"
version = "0.1.0"
edition = "2021"
publish = false

[dependencies]
argon2 = "0.5"
chrono = "0.4"
rusqlite = { version = "*", features = ["bundled"] }
rand = "0.8"
axum = "*"
axum-extra = { version = "*", features = ["cookie-private"] }
tokio = { version = "1", features = ["rt-multi-thread", "net", "signal", "macros"] }
hyper = "1"
clap = { version = "4", features = ["derive"] }
semver = "1"
serde = { version = "1", features = ["derive"] }
serde_json = "1"
tower-http = { version = "*", features = ["fs"] }
log = "0.4"
