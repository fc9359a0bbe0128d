[package]
name = "booru_dl"
version = "0.1.0"
edition = "2021"
publish = false

[dependencies]
anyhow = "*"
base16ct = { version = "=1.0.0", features = ["alloc"] }
clap = { version = "*", features = ["derive"] }
dialoguer = "*"
indicatif = "*"
md-5 = "=0.11.0"
reqwest = { version = "*", features = ["json"] }
serde = { version = "*", features = ["derive"] }
tokio = { version = "*", features = ["rt-multi-thread", "macros", "fs", "io-util", "sync", "time", "signal"] }
toml = "*"
validator = { version = "*", features = ["derive"] }
