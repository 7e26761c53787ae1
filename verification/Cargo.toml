[package]
name = "lernspark"
version = "0.1.0"
edition = "2021"
publish = false

[dependencies]
rand = "=0.8.8"
uuid = { version = "=1.29.0", features = ["v4"] }
fake = { version = "=2.10.0", features = ["random_color"] }
chrono = "=0.4.45"
colored = "=2.2.0"
dirs = "=5.0.1"
tar = "=0.4.46"
flate2 = "=1.1.10"
scopeguard = "=1.2.0"
tokio = { version = "=1.54.1", features = ["full"] }
arrow = { version = "=60.0.0", default-features = false }
parquet = { version = "=60.0.0", default-features = false, features = ["arrow"] }
aws-config = { version = "=1.12.0", features = ["behavior-version-latest"] }
aws-sdk-s3 = { version = "=1.152.0", features = ["behavior-version-latest"] }
aws-types = "=1.6.0"
