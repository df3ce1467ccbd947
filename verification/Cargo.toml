[package]
name = "v3s_monitor"
version = "0.1.0"
edition = "2021"
publish = false

[dependencies]
libc = "0.2"
rumqttc = "0.24"
rustls = "0.22"
serde = { version = "1", features = ["derive"] }
tiny_http = "0.12"
toml = "0.8"
ureq = "2"
webpki-roots = "0.26"
