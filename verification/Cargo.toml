[package]
name = "orbit_engine"
version = "0.1.0"
edition = "2021"
publish = false

[dependencies]
sgp4 = "*"
glam = "*"
reqwest = { version = "*", default-features = false, features = ["blocking", "cookies", "rustls-tls"] }
serde = { version = "1", features = ["derive"] }
serde_json = "1"
dotenv = "*"
