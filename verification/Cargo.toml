[package]
name = "password_manager"
version = "0.1.0"
edition = "2021"
publish = false

[dependencies]
hex = "0.4"
rocket = "0.5"
rocket_sync_db_pools = { version = "0.1", features = ["diesel_postgres_pool"] }
diesel = { version = "2.1", features = ["postgres"] }
dotenvy = "0.15"
log = "0.4"
simplelog = "0.12"
