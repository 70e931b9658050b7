[package]
name = "zhi"
version = "0.1.0"
edition = "2021"
publish = false

[dependencies]
base64 = "0.22"
pulldown-cmark = { version = "0.12", default-features = false }
rand = "0.8"
regex = "1"
serde = { version = "1", features = ["derive"] }
serde_json = "1"
sha2 = "0.10"
async-stream = "0.3"
async-trait = "0.1"
futures = "0.3"
glob = "0.3"
relm4 = { version = "0.9", features = ["libadwaita"] }
reqwest = { version = "0.12", default-features = false, features = ["json", "stream", "rustls-tls"] }
sqlx = { version = "0.8", default-features = false, features = ["runtime-tokio", "sqlite"] }
thiserror = "1"
tokio = { version = "1", features = ["full"] }
tracing = "0.1"
tracing-subscriber = { version = "0.3", features = ["env-filter"] }
walkdir = "2"
