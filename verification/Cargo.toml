[package]
name = "scapegame"
version = "0.1.0"
edition = "2021"
publish = false

[dependencies]
uuid = { version = "1", features = ["v4"] }
rand = "0.8"
tokio = { version = "1", features = ["rt-multi-thread", "macros", "sync", "time"] }
warp = "0.3"
serde = { version = "1", features = ["derive"] }
console = "0.15"
