[package]
name = "blog_core"
version = "0.1.0"
edition = "2021"
publish = false

[dependencies]
regex = "1"
time = { version = "0.3", features = ["parsing"] }
markdown = "*"
askama = "*"
axum = "*"
dotenv = "*"
lambda_http = "*"
serde = { version = "1", features = ["derive"] }
serde_json = "1"
serde_yaml = "*"
sqlx = { version = "*", default-features = false, features = ["postgres", "runtime-tokio", "time", "migrate"] }
tokio = { version = "1", features = ["macros", "rt-multi-thread"] }
tower-http = { version = "*", features = ["fs"] }
tracing = "*"
tracing-subscriber = "*"
