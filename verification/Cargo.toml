[package]
name = "dmx_bridge"
version = "0.1.0"
edition = "2021"
publish = false

[dependencies]
anyhow = "=1.0.104"
colog = "=1.4.0"
ctrlc = "=3.5.2"
libftd2xx = "=0.33.1"
log = "=0.4.34"
paho-mqtt = { version = "=0.14.0", default-features = false }
serde = { version = "=1.0.229", features = ["derive"] }
serde_json = "=1.0.154"
tokio = { version = "=1.54.1", features = ["full"] }
tokio-util = "=0.7.20"
toml = "=1.1.8"
