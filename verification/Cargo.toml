[package]
name = "dx_blog"
version = "0.1.0"
edition = "2021"
publish = false

[dependencies]
slug = "*"
pulldown-cmark = "*"
ammonia = "*"
serde = { version = "1", features = ["derive"] }
serde_json = "1"
chrono = "*"
sqlx = { version = "*", default-features = false, features = ["sqlite", "runtime-tokio", "macros"] }
anyhow = "1"
dioxus = { version = "*", features = ["router"] }
dioxus-sdk-time = "*"
futures-util = "*"
gloo-net = "*"
axum = "*"
tower-http = { version = "*", features = ["fs"] }
