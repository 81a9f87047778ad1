[package]
name = "bytehub"
version = "0.1.0"
edition = "2021"
publish = false

[dependencies]
clap = "4"
kaminari = { version = "=0.14.0", features = ["mix", "tls-ring"] }
log = "0.4"
serde = { version = "1", features = ["derive"] }
tokio = { version = "1", features = ["io-util", "macros", "net", "rt-multi-thread", "sync", "time"] }
tokio-util = "0.7"
