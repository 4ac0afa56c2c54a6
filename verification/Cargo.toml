[package]
name = "chron"
version = "0.1.0"
edition = "2021"
publish = false

[dependencies]
anyhow = "1"
axum = "0.8"
config = "0.15"
futures = "0.3"
hex = "0.4"
reqwest = { version = "0.12", default-features = false, features = ["json", "rustls-tls", "gzip", "brotli", "zstd", "deflate"] }
serde = { version = "1", features = ["derive"] }
serde_json = "1"
sqlx = { version = "0.8", default-features = false, features = ["runtime-tokio", "postgres", "time", "json"] }
time = { version = "0.3", features = ["parsing", "formatting", "serde", "serde-well-known"] }
tokio = { version = "1", features = ["full"] }
tower-http = { version = "0.6", features = ["cors", "trace", "fs", "compression-full"] }
tracing = "0.1"
tracing-subscriber = "0.3"
unicode-normalization = "0.1"
