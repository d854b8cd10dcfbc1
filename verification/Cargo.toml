[package]
name = "watchlist"
version = "0.1.0"
edition = "2021"
publish = false

[dependencies]
dptree = "=0.3.0"
log = "=0.4.34"
pretty_env_logger = "=0.4.0"
serde = { version = "=1.0.229", features = ["derive"] }
takecell = "=0.1.1"
teloxide = { version = "=0.12.2", features = ["macros", "sqlite-storage"] }
tokio = { version = "=1.54.1", features = ["rt-multi-thread", "macros"] }
