[package]
name = "kara"
version = "0.1.0"
edition = "2021"
publish = false

[dependencies]
anyhow = "1"
clap = { version = "4", default-features = false, features = ["derive", "std", "help", "usage", "error-context"] }
crossbeam-channel = "=0.5.17"
dirs = "4"
futures-util = "0.3"
gag = "1"
reqwest = { version = "=0.11.27", default-features = false, features = ["stream", "rustls-tls"] }
serde = { version = "1", features = ["derive"] }
thiserror = "1"
tokio = { version = "1", features = ["fs", "io-util", "macros", "rt-multi-thread"] }
toml = "0.5"
tracing = "0.1"
tracing-subscriber = { version = "0.3", features = ["env-filter"] }
vosk = "0.2"
zip = { version = "0.6", default-features = false, features = ["deflate"] }

[dev-dependencies]
url = "=2.5.8"
