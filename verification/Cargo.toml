[package]
name = "tracker_proxy"
version = "0.1.0"
edition = "2021"
publish = false

[dependencies]
axum = "*"
dotenvy = "*"
reqwest = { version = "*", default-features = false, features = ["gzip", "brotli"] }
tokio = { version = "*", features = ["rt-multi-thread", "macros", "signal", "net"] }
tower-http = { version = "*", features = ["compression-gzip", "compression-br"] }
tracing = "*"
tracing-subscriber = { version = "*", features = ["env-filter", "fmt"] }
