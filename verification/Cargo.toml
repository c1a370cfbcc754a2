[package]
name = "ingest_core"
version = "0.1.0"
edition = "2021"
publish = false

[dependencies]
bytes = "=1.12.1"
connectrpc = "=0.9.1"
futures = "=0.3.34"
http = "=1.5.0"
http-body = "=1.1.0"
http-body-util = "=0.1.5"
hyper = { version = "=1.12.0", features = ["server", "http1"] }
thiserror = "=2.0.21"
tokio = { version = "=1.54.1", features = ["sync"] }
tower = { version = "=0.5.3", features = ["util"] }

[dev-dependencies]
tokio = { version = "=1.54.1", features = ["sync", "rt", "time", "test-util"] }
