[package]
name = "skypulse"
version = "0.1.0"
edition = "2021"
publish = false

[dependencies]
axum = { version = "*", features = ["ws"] }
bytes = "*"
env_logger = "*"
libc = "*"
log = "*"
reqwest = { version = "*", default-features = false }
sdl2 = "*"
serde = { version = "*", features = ["derive"] }
serde_json = "*"
tokio = { version = "*", features = ["full"] }
