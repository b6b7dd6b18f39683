[package]
name = "esift"
version = "0.1.0"
edition = "2021"
publish = false

[dependencies]
anyhow = "1"
async-trait = "0.1"
aws-config = { version = "1", default-features = false, features = ["rt-tokio", "default-https-client"] }
aws-credential-types = { version = "1", features = ["hardcoded-credentials"] }
aws-sdk-s3 = { version = "1", default-features = false, features = ["rt-tokio", "default-https-client"] }
aws-sigv4 = { version = "1", features = ["sign-http", "http1"] }
aws-smithy-runtime-api = { version = "1", features = ["client", "http-1x"] }
azure_core = "*"
azure_identity = "*"
azure_storage_blob = "*"
clap = { version = "4", default-features = false, features = ["std", "help", "usage", "error-context", "derive", "env"] }
flate2 = "1"
futures = { version = "0.3", default-features = false, features = ["std"] }
google-cloud-gax = "*"
google-cloud-storage = "*"
http = "1"
indicatif = { version = "0.17", default-features = false }
metrics = "0.24"
metrics-exporter-prometheus = { version = "*", default-features = false }
reqwest = { version = "0.12", default-features = false, features = ["json", "rustls-tls"] }
serde = { version = "1", features = ["derive"] }
serde_json = "1"
thiserror = "1"
tokio = { version = "1", features = ["rt-multi-thread", "macros", "net", "io-util", "time"] }
toml = { version = "0.8", default-features = false, features = ["parse"] }
tracing = "0.1"
tracing-subscriber = { version = "0.3", default-features = false, features = ["fmt", "env-filter"] }
zstd = "0.13"
