[package]
name = "url_shortener"
version = "0.1.0"
edition = "2021"
publish = false

[dependencies]
axum = "0.7"
dotenvy = "0.15"
rand = "0.8"
serde = { version = "1", features = ["derive"] }
sqlx = { version = "0.8", default-features = false, features = ["runtime-tokio", "postgres", "migrate"] }
tokio = { version = "1", features = ["macros", "rt-multi-thread", "net"] }
tracing = "0.1"
tracing-subscriber = { version = "0.3", features = ["env-filter"] }
url = "2"
