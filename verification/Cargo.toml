[package]
name = "pet_core"
version = "0.1.0"
edition = "2021"
publish = false

[dependencies]
jiff = "*"
tokio = { version = "1", features = ["full"] }
notify = "*"
uuid = { version = "1", features = ["v4", "serde"] }
serde = { version = "1", features = ["derive"] }
toml = "*"
tracing = "0.1"
tracing-subscriber = { version = "0.3", features = ["env-filter"] }
directories = "*"
thiserror = "*"
auto-launch = "*"

[dev-dependencies]
serde_json = "1"
