[package]
name = "dpoll"
version = "0.1.0"
edition = "2021"
publish = false

[dependencies]
anyhow = "=1.0.104"
clap = { version = "=4.6.7", features = ["derive"] }
clap-verbosity-flag = "=3.0.4"
colored = "=3.1.1"
ctrlc = "=3.5.2"
env_logger = "=0.11.11"
futures = "=0.3.34"
log = "=0.4.34"
serde = { version = "=1.0.229", features = ["derive"] }
serde_json = "=1.0.151"
tokio = { version = "=1.53.2", features = ["full"] }
tokio-modbus = "=0.17.0"
tokio-serial = "=5.5.0"
