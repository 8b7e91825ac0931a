[package]
name = "chatbot"
version = "0.1.0"
edition = "2021"
publish = false

[dependencies]
async-trait = "=0.1.92"
base64 = "=0.21.7"
counter = "=0.5.7"
image = { version = "=0.25.10", default-features = false, features = ["webp", "png"] }
log = "=0.4.34"
reqwest = { version = "=0.11.27", default-features = false, features = ["json", "rustls-tls"] }
serde = { version = "=1.0.229", features = ["derive"] }
tdlib = { version = "=0.10.0", features = ["dox"] }
tempfile = "=3.27.0"
tokio = { version = "=1.54.1", features = ["macros", "rt-multi-thread", "sync", "time"] }
