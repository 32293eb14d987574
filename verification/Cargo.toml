[package]
name = "commit_tracker"
version = "0.1.0"
edition = "2021"
publish = false

[dependencies]
aws_lambda_events = { version = "=1.2.1", default-features = false, features = ["apigw"] }
chrono = "=0.4.45"
http = "=1.5.0"
indexmap = { version = "=2.14.2", features = ["serde"] }
lambda_runtime = "=1.5.0"
octocrab = "=0.47.1"
serde = { version = "=1.0.229", features = ["derive"] }
serde_json = "=1.0.154"
svg = "=0.18.0"
tokio = { version = "=1.54.1", features = ["macros", "rt-multi-thread"] }
tracing = { version = "=0.1.44", features = ["log"] }
tracing-subscriber = { version = "=0.3.23", features = ["env-filter"] }
