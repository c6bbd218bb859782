[package]
name = "system_dashboard"
version = "0.1.0"
edition = "2021"
publish = false

[dependencies]
chrono = "0.4"
rocket = { version = "0.5", features = ["json"] }
rocket_dyn_templates = { version = "0.1", features = ["tera"] }
serde = { version = "1", features = ["derive"] }
serde_json = "1"
systemstat = "0.1"
