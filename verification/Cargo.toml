[package]
name = "catalog_core"
version = "0.1.0"
edition = "2021"
publish = false

[dependencies]
base64 = "=0.23.1"
serde = { version = "*", features = ["derive"] }
serde_json = "*"
uuid = { version = "*", features = ["v4", "serde"] }
chrono = { version = "*", features = ["serde"] }
axum = { version = "*", features = ["multipart"] }
tokio = { version = "*", features = ["fs", "rt-multi-thread", "macros"] }
tower-http = { version = "*", features = ["fs"] }
tera = { version = "=2.4.0", features = ["glob_fs"] }
sqlx = { version = "*", features = ["runtime-tokio-rustls", "postgres", "chrono", "uuid", "macros"], default-features = false }
