[package]
name = "cc2_openwebui"
version = "0.1.0"
edition = "2021"
publish = false

[dependencies]
axum = "*"
config = { version = "*", default-features = false }
futures = "*"
rand = "0.8"
reqwest = { version = "*", default-features = false, features = ["json"] }
rumqttc = { version = "*", default-features = false }
serde = { version = "1", features = ["derive"] }
serde_json = "1"
tokio = { version = "1", features = ["macros", "rt-multi-thread", "sync", "time"] }
tracing = "*"
