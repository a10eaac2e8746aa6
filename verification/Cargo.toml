[package]
name = "entman"
version = "0.1.0"
edition = "2021"
publish = false

[dependencies]
ldap3 = "=0.12.1"
rocket = { version = "=0.5.1", features = ["json"] }
tokio = { version = "=1.53.2", features = ["full"] }
reqwest = "=0.13.5"
toml = "=0.8.23"
env_logger = "=0.11.11"
log = "=0.4.34"
async-trait = "=0.1.92"
serde = { version = "=1.0.229", features = ["derive"] }
serde_json = "=1.0.151"
