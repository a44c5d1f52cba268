[package]
name = "superheroes"
version = "0.1.0"
edition = "2021"
publish = false

[dependencies]
rand = "0.9"
axum = "0.8"
tokio = { version = "1", features = ["macros", "rt-multi-thread", "net", "sync", "time"] }
sqlx = { version = "0.8", default-features = false, features = ["runtime-tokio", "sqlite", "derive"] }
serde = { version = "1", features = ["derive"] }
serde_json = "1"
reqwest = { version = "0.12", default-features = false, features = ["json"] }
log = "0.4"
env_logger = "0.11"
tonic = "0.12"
prost = "0.13"
