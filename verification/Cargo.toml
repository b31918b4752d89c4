[package]
name = "mqtt_building_simulator"
version = "0.1.0"
edition = "2021"
publish = false

[dependencies]
uuid = { version = "1", features = ["v4"] }
serde = { version = "1", features = ["derive"] }
serde_json = "1"
chrono = { version = "0.4", features = ["serde"] }
tokio = { version = "1", features = ["full"] }
rumqttc = { version = "0.24", default-features = false }
axum = "0.8"
tower-http = { version = "0.6", features = ["cors"] }
