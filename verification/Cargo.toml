[package]
name = "rust_server"
version = "0.1.0"
edition = "2021"
publish = false

[dependencies]
actix-web = "4"
actix-cors = "0.7"
bcrypt = "0.17"
chrono = "0.4"
dotenvy = "0.15"
env_logger = "0.11"
futures = "0.3"
jsonwebtoken = "9"
log = "0.4"
mongodb = "3"
reqwest = { version = "0.12", default-features = false, features = ["json", "rustls-tls"] }
serde = { version = "1", features = ["derive"] }
serde_json = "1"
time = "0.3"
utoipa = { version = "5", features = ["actix_extras"] }
utoipa-swagger-ui = { version = "9", features = ["actix-web", "vendored"] }
