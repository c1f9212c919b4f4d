[package]
name = "mem0_core"
version = "0.1.0"
edition = "2021"
publish = false

[dependencies]
async-trait = "=0.1.92"
aurora-dsql-sqlx-connector = { version = "=0.2.2", features = ["pool"] }
aws-config = "=1.13.0"
aws-sdk-s3vectors = "=1.47.0"
aws-smithy-types = "=1.9.1"
chrono = { version = "=0.4.45", features = ["serde"] }
lambda_http = "=1.3.2"
once_cell = "=1.21.4"
pmcp = { version = "=2.23.0", features = ["macros", "streamable-http"] }
reqwest = { version = "=0.12.28", default-features = false, features = ["json", "rustls-tls-webpki-roots"] }
rusqlite = { version = "=0.39.0", features = ["bundled"] }
schemars = "=1.2.3"
serde = { version = "=1.0.229", features = ["derive"] }
serde_json = "=1.0.154"
sqlx = { version = "=0.9.0", default-features = false, features = ["postgres", "runtime-tokio"] }
tokio = { version = "=1.54.1", features = ["rt-multi-thread", "macros", "sync"] }
tracing = "=0.1.44"
tracing-subscriber = { version = "=0.3.23", features = ["env-filter"] }
uuid = { version = "=1.29.0", features = ["v4"] }
