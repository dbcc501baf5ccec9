[package]
name = "completion_relay"
version = "0.1.0"
edition = "2021"
publish = false

[dependencies]
actix-web = "4"
dotenvy = "0.15"
hyper = { version = "0.14", features = ["client", "http1", "tcp"] }
hyper-tls = "0.5"
sqlx = { version = "0.8", default-features = false, features = ["postgres", "runtime-tokio"] }
