[package]
name = "frpc_manager"
version = "0.1.0"
edition = "2021"
publish = false

[dependencies]
uuid = { version = "*", features = ["v4"] }
chrono = "*"
serde_json = "*"
libc = "*"
tokio = { version = "*", features = ["rt-multi-thread", "net", "io-util", "time", "macros", "sync", "fs", "io-std", "process"] }
flate2 = "*"
tar = "*"
zip = { version = "*", default-features = false, features = ["deflate"] }
serde = { version = "*", features = ["derive"] }
toml = "*"
thiserror = "*"
