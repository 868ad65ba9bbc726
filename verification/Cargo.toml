[package]
name = "proteus"
version = "0.1.0"
edition = "2021"
publish = false

[dependencies]
aes-gcm = "=0.10.3"
anyhow = "1"
base64 = "=0.22.1"
axum = { version = "0.8", default-features = false, features = ["http1", "json", "tokio"] }
blake3 = { version = "=1.8.7", default-features = false, features = ["pure"] }
bytes = "1"
chrono = { version = "=0.4.45", features = ["serde"] }
cron = "=0.15.0"
dioxus = { version = "0.7", default-features = false, features = ["web", "macro", "html", "signals", "hooks", "launch"] }
gloo-net = { version = "0.6", default-features = false, features = ["http", "json"] }
gloo-timers = { version = "0.3", features = ["futures"] }
k8s-openapi = { version = "0.24", features = ["v1_30"] }
kube = { version = "0.99", default-features = false, features = ["client", "runtime", "derive"] }
schemars = "0.8"
serde = { version = "1", features = ["derive"] }
serde_json = "1"
serde_yaml = "0.9"
tokio = { version = "1", features = ["rt-multi-thread", "macros", "time", "net", "sync"] }
tower-http = { version = "0.6", features = ["cors", "trace"] }
tracing = "0.1"
uuid = { version = "=1.29.0", features = ["v4"] }
web-sys = { version = "0.3", features = ["Window", "Document", "Element", "Storage", "MediaQueryList"] }
