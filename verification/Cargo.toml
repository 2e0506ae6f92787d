[package]
name = "vibe-cat"
version = "0.1.0"
edition = "2021"
publish = false

[dependencies]
axum = { version = "0.8", default-features = false, features = ["http1", "tokio"] }
chrono = { version = "0.4", default-features = false, features = ["clock", "std"] }
clap = { version = "4", default-features = false, features = ["derive", "std", "help", "usage", "error-context"] }
colored = "2"
dirs = "5"
fs2 = "0.4"
image = { version = "0.25", default-features = false, features = ["png"] }
opentelemetry-proto = { version = "0.28", default-features = false, features = ["gen-tonic-messages", "logs"] }
prost = "0.13"
rand = "0.8"
serde = { version = "1", features = ["derive"] }
serde_json = "1"
tokio = { version = "1", features = ["rt", "rt-multi-thread", "net", "io-util", "time"] }
toml = "0.8"
