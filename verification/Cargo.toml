[package]
name = "swaynyaad"
version = "0.1.0"
edition = "2021"
publish = false

[dependencies]
alsa = "=0.12.1"
anyhow = "=1.0.104"
chrono = "=0.4.45"
env_logger = "=0.11.11"
eyre = "=0.6.14"
futures = "=0.3.34"
futures-lite = "=2.6.1"
log = "=0.4.34"
rustix = { version = "=1.1.5", features = ["system"] }
serde = { version = "=1.0.229", features = ["derive"] }
serde_json = "=1.0.151"
swayipc = "=4.0.0"
swayipc-async = "=3.0.0"
tokio = { version = "=1.53.2", features = ["full"] }
upower_dbus = "=0.3.2"
zbus = "=3.15.2"
