[package]
name = "mlflow_server"
version = "0.1.0"
edition = "2021"
publish = false

[dependencies]
actix-web = "=4.15.0"
async-trait = "=0.1.92"
clap = { version = "=4.6.7", features = ["derive"] }
env_logger = "=0.11.11"
serde = { version = "=1.0.229", features = ["derive"] }
sqlx = { version = "=0.9.0", features = ["runtime-tokio", "sqlite", "derive"], default-features = false }
tokio = { version = "=1.53.2", features = ["rt-multi-thread", "macros"] }
url = "=2.5.8"
