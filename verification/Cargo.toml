[package]
name = "release_notifier"
version = "0.1.0"
edition = "2021"
publish = false

[dependencies]
anyhow = "1"
config = "0.15"
humantime-serde = "1"
lettre = { version = "0.11", default-features = false, features = ["builder", "hostname", "smtp-transport", "tokio1", "tokio1-rustls-tls"] }
log = "0.4"
log4rs = { version = "1", default-features = false, features = ["console_appender"] }
reqwest = { version = "0.12", default-features = false, features = ["cookies", "multipart", "rustls-tls"] }
rlimit = "*"
scraper = "*"
serde = { version = "1", features = ["derive"] }
tokio = { version = "1", features = ["fs", "macros", "process", "rt-multi-thread", "time"] }
