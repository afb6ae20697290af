[package]
name = "schedule_bot"
version = "0.1.0"
edition = "2021"
publish = false

[dependencies]
bytes = "=1.12.1"
calamine = "=0.26.1"
chrono = { version = "=0.4.45", features = ["serde"] }
dotenvy = "=0.15.7"
log = "=0.4.35"
pretty_env_logger = "=0.5.0"
reqwest = { version = "=0.12.28", default-features = false, features = ["rustls-tls"] }
serde = { version = "=1.0.229", features = ["derive"] }
serde_json = "=1.0.154"
# Not used by this crate: teloxide depends on takecell, whose 0.1.2 release
# needs Rust 1.96; this keeps the 0.1.1 release, which builds with Rust 1.95.
takecell = "=0.1.1"
teloxide = { version = "=0.13.0", default-features = false, features = ["macros", "rustls", "ctrlc_handler"] }
tokio = { version = "=1.54.1", features = ["full"] }

[dev-dependencies]
zip = { version = "=2.2.0", default-features = false, features = ["deflate"] }
