[package]
name = "vertex_ai"
version = "0.1.0"
edition = "2021"
publish = false

[dependencies]
uuid = { version = "=1.29.0", features = ["v4", "serde"] }
chrono = { version = "=0.4.45", default-features = false, features = ["clock", "std", "serde"] }
regex = "=1.13.1"
getrandom = "=0.3.4"
serde = { version = "=1.0.229", features = ["derive"] }
serde_json = "=1.0.154"
reqwest = { version = "0.12", default-features = false, features = ["json", "stream"] }
tokio = { version = "1", features = ["rt-multi-thread", "macros", "sync", "time", "process", "io-util"] }
futures-core = "0.3"
futures-util = "0.3"
async-trait = "0.1"
thiserror = "2"
tracing = "0.1"
tracing-subscriber = "0.3"
fs2 = "0.4"
walkdir = "2"
similar = "2"
zeroize = "1"
keyring = { version = "3", default-features = false }
sqlx = { version = "0.8", default-features = false, features = ["runtime-tokio", "postgres", "uuid", "chrono", "json"] }
