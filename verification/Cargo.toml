[package]
name = "kweepeer"
version = "0.1.0"
edition = "2021"
publish = false

[dependencies]
regex-syntax = "=0.8.11"
fst = { version = "=0.4.7", features = ["levenshtein"] }
analiticcl = "=0.4.9"
finalfusion = "=0.18.0"
serde = { version = "=1.0.229", features = ["derive"] }
serde_json = "=1.0.154"
toml = "=1.1.8"
clap = { version = "=4.6.7", features = ["derive"] }
tracing = "=0.1.44"
tracing-subscriber = "=0.3.23"
tokio = { version = "=1.54.1", features = ["macros", "rt-multi-thread", "net"] }
axum = "=0.8.9"
tower-http = { version = "=0.7.1", features = ["trace"] }
utoipa = "=6.0.0"
utoipa-swagger-ui = { version = "=10.0.2", features = ["axum", "vendored"] }

[dev-dependencies]
ndarray = "=0.15.6"
