[package]
name = "kmcu"
version = "0.1.0"
edition = "2021"
publish = false

[dependencies]
miniz_oxide = "=0.8.9"
heapless = "0.8"
serde = { version = "=1.0.229", features = ["derive"] }
serde_json = "=1.0.154"
toml = "=0.8.23"
libc = "=0.2.191"
log = "=0.4.35"
pretty_env_logger = "=0.5.0"
uom = "=0.36.0"
static_init = "=1.0.4"
