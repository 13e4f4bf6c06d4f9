[package]
name = "family"
version = "0.1.0"
edition = "2021"
publish = false

[dependencies]
serenity = "0.12"
sqlx = { version = "0.8", default-features = false, features = ["macros", "runtime-tokio"] }
async-trait = "0.1"
futures = "0.3"
charming = "*"
