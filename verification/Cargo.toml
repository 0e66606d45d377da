[package]
name = "tunetagger"
version = "0.1.5"
edition = "2021"
publish = false

[dependencies]
anyhow = "1"
clap = { version = "4", features = ["derive"] }
id3 = "1"
reqwest = { version = "0.12", default-features = false, features = ["json", "rustls-tls"] }
sanitize-filename = "*"
serde = { version = "1", features = ["derive"] }
serde_json = "1"
songrec-lib = "*"
thiserror = "*"
tokio = { version = "1", features = ["macros", "rt-multi-thread"] }
toml = "*"
tracing-subscriber = { version = "0.3", features = ["env-filter"] }
urlencoding = "2"
walkdir = "2"
