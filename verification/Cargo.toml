[package]
name = "fluminurs_desktop"
version = "0.1.0"
edition = "2021"
publish = false

[dependencies]
async-trait = "0.1"
chrono = { version = "0.4", default-features = false, features = ["std"] }
directories = "*"
etcetera = "*"
fluminurs = "1.1.8"
futures-util = "0.3"
open = "1"
serde = { version = "1", features = ["derive"] }
serde_json = "1"
tokio = { version = "1", features = ["fs", "time"] }
