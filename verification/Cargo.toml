[package]
name = "prokuro"
version = "0.1.0"
edition = "2021"
publish = false

[dependencies]
aws-config = { version = "=1.13.0", default-features = false, features = ["behavior-version-latest", "rt-tokio", "rustls"] }
aws-sdk-bedrockruntime = { version = "=1.153.0", default-features = false, features = ["behavior-version-latest", "rt-tokio", "rustls"] }
aws-sdk-dynamodb = { version = "=1.136.0", default-features = false, features = ["behavior-version-latest", "rt-tokio", "rustls"] }
aws-sdk-s3 = { version = "=1.157.0", default-features = false, features = ["behavior-version-latest", "rt-tokio", "rustls", "sigv4a"] }
aws-sdk-sesv2 = { version = "=1.145.0", default-features = false, features = ["behavior-version-latest", "rt-tokio", "rustls"] }
aws-sdk-sns = { version = "=1.121.0", default-features = false, features = ["behavior-version-latest", "rt-tokio", "rustls"] }
axum = { version = "=0.7.9", features = ["multipart"] }
calamine = "=0.32.0"
chrono = "=0.4.45"
csv = "=1.4.0"
encoding_rs = "=0.8.44"
futures = "=0.3.34"
hex = "=0.4.3"
hmac = "=0.12.1"
jsonwebtoken = "=9.3.1"
opentelemetry = "=0.27.1"
opentelemetry_sdk = "=0.27.1"
reqwest = { version = "=0.12.28", default-features = false, features = ["json", "multipart", "rustls-tls"] }
serde = { version = "=1.0.229", features = ["derive"] }
serde_json = "=1.0.154"
sha2 = "=0.10.9"
sqlx = { version = "=0.8.6", default-features = false, features = ["runtime-tokio", "postgres", "chrono", "json"] }
strsim = "=0.11.1"
tokio = { version = "=1.54.1", features = ["full"] }
toml = "=0.8.23"
tower-http = { version = "=0.6.11", features = ["cors", "trace"] }
tracing = "=0.1.44"
tracing-subscriber = { version = "=0.3.23", features = ["env-filter"] }
uuid = { version = "=1.29.0", features = ["v4"] }
zip = { version = "=4.6.1", default-features = false, features = ["deflate"] }
