[package]
name = "layerpack"
version = "0.1.0"
edition = "2021"
publish = false

[dependencies]
zip = "*"
image = "*"
rayon = "*"
tokio = { version = "*", features = ["rt", "macros"] }
lambda_http = "*"
aws-config = { version = "*", default-features = false }
aws-sdk-s3 = { version = "*", default-features = false }
tracing-subscriber = { version = "*", features = ["env-filter"] }
