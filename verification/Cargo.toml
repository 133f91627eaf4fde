[package]
name = "hookbot"
version = "0.1.0"
edition = "2021"
publish = false

[dependencies]
aes-gcm = "=0.10.3"
base64 = "=0.22.1"
bcrypt = "=0.15.1"
chrono = { version = "=0.4.45", default-features = false, features = ["alloc", "clock"] }
hex = "=0.4.3"
hmac = "=0.12.1"
sha2 = "=0.10.9"
uuid = { version = "=1.29.0", features = ["v4"] }
serde = { version = "=1.0.229", features = ["derive"] }
serde_json = "=1.0.154"
clap = { version = "4", features = ["derive", "env"] }
reqwest = { version = "0.12", default-features = false, features = ["json", "cookies", "rustls-tls"] }
tokio = { version = "1", features = ["macros", "rt-multi-thread", "time", "process", "io-util"] }
colored = "2"
rpassword = "7"
