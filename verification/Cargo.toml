[package]
name = "recipemanagement"
version = "0.1.0"
edition = "2021"
publish = false

[dependencies]
tantivy = "=0.22.1"
regex = "=1.13.1"
serde = { version = "1", features = ["derive"] }
diesel = { version = "=2.2.12", features = ["sqlite"] }
diesel_logger = "0.4"
dotenvy = "0.15"
axum = { version = "0.6", features = ["headers"] }
axum-sessions = "0.6"
askama = "0.12"
argon2 = "0.5"
rand = "0.8"
hex = "0.4"
env_logger = "0.10"
log = "0.4"
tokio = { version = "1", features = ["full"] }
futures = "0.3"
