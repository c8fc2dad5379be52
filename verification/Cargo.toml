[package]
name = "rusty_mqtt"
version = "0.4.0"
edition = "2021"
publish = false

[dependencies]
mqtt-protocol = { version = "=0.12.0", features = ["tokio"] }
serde_json = "=1.0.151"
uuid = { version = "=1.27.0", features = ["v4"] }
tokio = { version = "=1.53.2", features = ["rt-multi-thread", "macros", "net", "time", "io-util"] }
futures = "=0.3.34"
clap = "=2.34.0"
env_logger = "=0.11.11"
log = "=0.4.34"
