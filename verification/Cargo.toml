[package]
name = "avtensor"
version = "0.1.0"
edition = "2021"
publish = false

[dependencies]
anyhow = "1"
aws-config = { version = "1", default-features = false, features = ["behavior-version-latest", "default-https-client", "rt-tokio"] }
aws-sdk-s3 = { version = "1", default-features = false, features = ["behavior-version-latest", "default-https-client", "rt-tokio"] }
bytes = "1"
google-cloud-gax = "1"
google-cloud-storage = "1"
http = "1"
libc = "0.2"
libloading = "0.8"
log = "0.4"
pyo3 = "0.25"
pyo3-log = "0.12"
rsmpeg = "*"
tch = { version = "*", default-features = false }
tokio = { version = "1", features = ["rt-multi-thread", "time", "sync"] }
