[package]
name = "nautilus_agents"
version = "0.2.0"
edition = "2021"
publish = false

[dependencies]
futures-timer = "3"
futures-util = "0.3"
schemars = "1"
serde = { version = "1", features = ["derive"] }
serde_json = "1"
serde_json_canonicalizer = "*"
sha2 = "0.10"
thiserror = "2"
uuid = { version = "1", features = ["v4"] }

[dev-dependencies]
pollster = "0.4"
