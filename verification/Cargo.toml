[package]
name = "fundi"
version = "0.1.0"
edition = "2021"
publish = false

[dependencies]
axum = { version = "=0.6.20", default-features = false, features = ["json", "query", "tokio"] }
base64 = "=0.21.7"
chrono = { version = "=0.4.45", default-features = false, features = ["clock", "serde"] }
ethers = { version = "=2.0.14", default-features = false }
hyper = { version = "=0.14.32", features = ["server", "tcp", "http1"] }
# Keeps the URL parser below `ethers` on its small Unicode tables.
idna_adapter = "=1.1.0"
image = { version = "=0.24.9", default-features = false, features = ["jpeg", "png"] }
serde = { version = "=1.0.229", features = ["derive"] }
serde_json = "=1.0.154"
sqlx = { version = "0.6", default-features = false, features = ["runtime-tokio-rustls", "postgres", "uuid", "chrono", "migrate"] }
tiny-keccak = { version = "=2.0.2", features = ["keccak"] }
tokio = { version = "=1.54.1", features = ["rt-multi-thread", "macros", "net", "time", "sync"] }
tower-http = { version = "=0.4.4", features = ["cors"] }
uuid = { version = "=1.29.0", features = ["v4", "serde"] }
