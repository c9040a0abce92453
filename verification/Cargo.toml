[package]
name = "lockbox"
version = "0.1.0"
edition = "2021"
publish = false

[dependencies]
chrono = "0.4"
uuid = { version = "1", features = ["v4"] }
nanoid = "0.4"
base64 = "0.22"
serde = { version = "1", features = ["derive"] }
serde_json = "1"
axum = "0.7"
tokio = { version = "1", features = ["full"] }
tower = { version = "0.5", features = ["util"] }
tower-http = { version = "0.5", features = ["cors"] }
http = "1"
hyper = "1"
http-body-util = "0.1"
lambda_http = "*"
lambda_runtime = "*"
aws_lambda_events = "*"
aws-config = { version = "1", features = ["behavior-version-latest"] }
aws-sdk-dynamodb = "1"
aws-sdk-sns = "1"
serde_dynamo = { version = "4", features = ["aws-sdk-dynamodb+1"] }
async-trait = "0.1"
thiserror = "1"
anyhow = "1"
log = "0.4"
env_logger = "0.11"
tracing = "0.1"
tracing-subscriber = { version = "0.3", features = ["env-filter"] }
once_cell = "1"
jsonwebtoken = "9"
