[package]
name = "car_registry"
version = "0.1.0"
edition = "2021"
publish = false

[dependencies]
axum = "*"
serde = "*"
serde_derive = "*"
serde_json = "*"
tokio = { version = "*", features = ["macros", "rt-multi-thread", "net"] }
