[package]
name = "wx_robot"
version = "0.1.0"
edition = "2021"
publish = false

[dependencies]
regex = "1"
serde = { version = "1", features = ["derive"] }
serde_json = "1"
quick-xml = { version = "*", features = ["serialize"] }
actix-web = "4"
actix-rt = "2"
bytes = "1"
config = { version = "*", default-features = false, features = ["toml"] }
reqwest = { version = "*", default-features = false, features = ["blocking", "json", "rustls-tls"] }
log = "0.4"
env_logger = "*"
