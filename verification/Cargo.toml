[package]
name = "starship_config_manager"
version = "0.1.0"
edition = "2021"
publish = false

[dependencies]
chrono = { version = "0.4", default-features = false, features = ["now"] }
dirs = "5"
serde = { version = "1", features = ["derive"] }
serde_json = "1"
