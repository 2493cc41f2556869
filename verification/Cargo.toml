[package]
name = "led_control"
version = "0.1.0"
edition = "2021"
publish = false

[dependencies]
querystring = "1.1.0"
serde = { version = "1", features = ["derive"] }
serde_json = "1"
serde_yaml = "0.9"
anyhow = "1"
log = "0.4"
lazy_static = "1"
once_cell = "1"
embedded-svc = "=0.26.4"
esp-idf-hal = "=0.42.5"
esp-idf-svc = "=0.47.3"
