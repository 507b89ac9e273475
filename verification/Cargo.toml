[package]
name = "tictac_hub"
version = "0.1.0"
edition = "2021"
publish = false

[dependencies]
chrono = "0.4"
jsonwebtoken = "9"
rocket = { version = "0.5", features = ["json"] }
rocket_cors = "*"
rocket_okapi = { version = "*", features = ["swagger"] }
sea-orm = { version = "*", default-features = false, features = ["macros", "runtime-tokio-rustls", "sqlx-sqlite"] }
serde = { version = "1", features = ["derive"] }
