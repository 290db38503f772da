[package]
name = "cub_ip_app"
version = "0.1.0"
edition = "2021"
publish = false

[dependencies]
anyhow = "1"
base64 = "0.13"
clap = "2"
config = { version = "0.11", default-features = false, features = ["toml"] }
futures = "0.3"
log = "0.4"
paho-mqtt = { version = "0.11", default-features = false, features = ["bundled"] }
parse_duration = "2"
quick-xml = { version = "0.22", features = ["serialize"] }
serde = { version = "1", features = ["derive"] }
syslog = "5"
tokio = { version = "1", features = ["full"] }
