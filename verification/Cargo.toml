[package]
name = "s3archivefs"
version = "0.1.0"
edition = "2021"
publish = false

[dependencies]
aws-config = { version = "=1.13.0", default-features = false }
aws-sdk-s3 = { version = "=1.155.0", default-features = false }
aws-smithy-types = { version = "=1.9.0", features = ["rt-tokio"] }
aws_lambda_events = "=1.2.1"
base64 = "=0.13.1"
env_logger = "=0.11.11"
fs4 = "=1.1.0"
http-range = "=0.1.6"
lambda_runtime = "=1.5.0"
libc = "=0.2.191"
libfuse-sys = "*"
log = "=0.4.34"
rand = "=0.8.8"
serde = { version = "1", features = ["derive"] }
serde_json = "=1.0.154"
structopt = "=0.3.26"
tokio = { version = "=1.54.1", features = ["fs", "io-util", "macros", "rt", "rt-multi-thread", "time"] }
url = "=2.5.8"
xml_serde = "=1.4.1"
