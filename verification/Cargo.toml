[package]
name = "docker_registry_manager"
version = "0.1.0"
edition = "2021"
publish = false

[dependencies]
aes-gcm = "0.10"
base64 = "0.22"
directories = "6"
rand = "0.9"
reqwest = { version = "0.12", default-features = false, features = ["rustls-tls"] }
serde_json = { version = "1", features = ["preserve_order"] }
sha2 = "0.10"
tokio = { version = "1", features = ["rt"] }
uuid = { version = "1", features = ["v4"] }
