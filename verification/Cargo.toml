[package]
name = "veloren_server"
version = "0.1.0"
edition = "2021"
publish = false

[dependencies]
hashbrown = "=0.17.1"
serde = { version = "=1.0.229", features = ["derive"] }
toml = "=1.1.8"
chrono = { version = "0.4", default-features = false, features = ["clock", "std"] }
humantime = "2"
rustls-pemfile = "1"
rand = "0.9"
