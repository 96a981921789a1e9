[package]
name = "sfo-http"
version = "0.1.0"
edition = "2021"
publish = false

[dependencies]
route-recognizer = "=0.3.1"
http = "=1.5.0"
log = "=0.4.34"
sfo-result = "=0.2.16"
serde = { version = "=1.0.229", features = ["derive"] }
serde_json = "=1.0.154"
sha2 = "=0.10.9"
base58 = "=0.2.0"
tokio = { version = "=1.54.1", features = ["net", "rt"] }
hyper = { version = "1", features = ["server", "http1"] }
hyper-util = { version = "0.1", features = ["tokio"] }
http-body-util = "0.1"
