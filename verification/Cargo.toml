[package]
name = "betteruptime"
version = "0.1.0"
edition = "2021"
publish = false

[dependencies]
anyhow = "*"
chrono = "*"
diesel = { version = "*", default-features = false, features = ["postgres_backend", "chrono", "uuid"] }
diesel-async = { version = "*", features = ["postgres"] }
dotenvy = "*"
futures = "*"
redis = { version = "*", features = ["tokio-comp"] }
reqwest = { version = "*", default-features = false, features = ["rustls-tls"] }
tokio = { version = "*", features = ["macros", "rt-multi-thread", "sync", "time"] }
tracing = "*"
tracing-subscriber = "*"
uuid = { version = "*", features = ["v4"] }
