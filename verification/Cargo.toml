[package]
name = "vssv"
version = "0.1.0"
edition = "2021"
publish = false

[dependencies]
anyhow = "1"
axum = "0.8"
axum-extra = { version = "0.10", features = ["typed-header"] }
chrono = { version = "0.4", features = ["clock"] }
clap = { version = "4", features = ["derive", "env"] }
sqlx = { version = "0.8", default-features = false, features = ["runtime-tokio", "postgres", "chrono", "uuid", "ipnetwork"] }
thiserror = "2"
tokio = { version = "1", features = ["rt-multi-thread", "net", "signal", "macros", "time"] }
tracing = "0.1"
tracing-subscriber = { version = "0.3", features = ["fmt", "json", "ansi"] }
uuid = { version = "1", features = ["serde"] }
