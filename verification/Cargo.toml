[package]
name = "server_side"
version = "0.1.0"
edition = "2021"
publish = false

[dependencies]
zip = { version = "=2.6.1", default-features = false, features = ["deflate"] }
chrono = { version = "=0.4.45", default-features = false, features = ["clock", "std"] }
serde = { version = "=1.0.229", features = ["derive"] }
serde_json = "=1.0.154"
actix-web = { version = "=4.18.1", default-features = false, features = ["macros"] }
actix-files = "=0.6.10"
sqlx = { version = "=0.8.6", default-features = false, features = ["runtime-tokio", "sqlite", "mysql", "chrono", "migrate"] }
tokio = { version = "=1.54.1", features = ["macros", "rt-multi-thread", "sync"] }
clap = { version = "=4.6.7", features = ["derive", "env"] }
uuid = { version = "=1.29.1", features = ["v4"] }
dotenv = "=0.15.0"
thiserror = "=1.0.69"
rocket = { version = "0.5", features = ["json"] }
