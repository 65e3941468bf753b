[package]
name = "sc_follower_avatars"
version = "0.1.0"
edition = "2021"
publish = false

[dependencies]
random-string = "*"
reqwest = { version = "*", default-features = false, features = ["blocking"] }
serde = { version = "*", features = ["derive"] }
serde_json = "*"
toml = "*"
log = "*"
env_logger = "*"
