[package]
name = "contextswitch_api"
version = "0.1.0"
edition = "2021"
publish = false

[dependencies]
actix-web = "4"
config = "*"
configparser = "*"
serde = { version = "1", features = ["derive"] }
serde_json = "1"
tokio = { version = "1", features = ["macros", "process", "rt-multi-thread", "sync"] }
