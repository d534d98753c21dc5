[package]
name = "rust_versions"
version = "0.1.0"
edition = "2021"
publish = false

[dependencies]
actix-files = "=0.7.0"
actix-web = "=4.15.0"
env_logger = "=0.11.11"
oasgen = { version = "=0.25.0", features = ["actix"] }
r2d2 = "=0.8.10"
r2d2_sqlite = "=0.35.0"
rusqlite = { version = "=0.40.2", features = ["bundled"] }
serde = { version = "=1.0.229", features = ["derive"] }
tera = "=1.20.1"
