[package]
name = "architect"
version = "0.1.0"
edition = "2021"
publish = false

[dependencies]
regex = "1"
uuid = "1"
serde = { version = "1", features = ["derive"] }
serde_json = "1"
sqlx = { version = "0.8", default-features = false, features = ["runtime-tokio", "postgres", "json", "chrono", "uuid"] }
chrono = "0.4"
zip = { version = "2", default-features = false, features = ["deflate"] }
