[package]
name = "doscenario-docs"
version = "0.1.0"
edition = "2021"
publish = false

[dependencies]
crc32fast = "1"
dashmap = "5"
futures = "0.3"
jsonwebtoken = "9"
log = "0.4"
rs-snowflake = "0.6"
serde = { version = "1", features = ["derive"] }
sqlx = { version = "0.8", default-features = false, features = ["mysql", "runtime-tokio", "derive", "time", "uuid"] }
tokio = { version = "1", features = ["rt-multi-thread", "macros", "sync", "time"] }
uuid = { version = "1", features = ["v4"] }
