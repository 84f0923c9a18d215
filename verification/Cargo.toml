[package]
name = "agent_context"
version = "0.1.0"
edition = "2021"
publish = false

[dependencies]
anyhow = "1"
axum = { version = "0.7", features = ["ws"] }
chrono = "0.4"
clap = { version = "4", features = ["derive"] }
env_logger = "0.11"
futures = "0.3"
handlebars = "6"
image = { version = "0.25", default-features = false, features = ["png"] }
log = "0.4"
parking_lot = "0.12"
qrcode = { version = "0.14", default-features = false, features = ["image", "svg"] }
rand = "0.9"
regex = "1"
schemars = "1"
serde = { version = "1", features = ["derive"] }
serde_json = { version = "1", features = ["preserve_order"] }
tokio = { version = "1", features = ["rt-multi-thread", "macros", "net", "process", "time", "io-util", "sync"] }
uuid = { version = "1", features = ["v4"] }
