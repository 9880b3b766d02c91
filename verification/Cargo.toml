[package]
name = "ec2-instance-manager"
version = "0.1.0"
edition = "2021"
publish = false

[dependencies]
anyhow = "=1.0.104"
aws-config = { version = "=1.12.0", default-features = false }
aws-sdk-pricing = { version = "=1.118.0", default-features = false }
chrono = "=0.4.45"
crossterm = "=0.29.0"
directories = "=6.0.0"
ratatui = "=0.30.2"
serde = { version = "=1.0.229", features = ["derive"] }
serde_json = "=1.0.151"
tokio = { version = "=1.53.2", features = ["macros", "rt-multi-thread", "sync", "time", "fs"] }
toml = "=1.1.7"
