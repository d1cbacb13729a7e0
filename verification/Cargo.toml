[package]
name = "syno_photos_util"
version = "0.1.0"
edition = "2021"
publish = false

[dependencies]
syno_api = "=0.6.0"
anyhow = "*"
clap = { version = "*", features = ["derive"] }
dirs = "*"
futures = "*"
log = "*"
reqwest = { version = "=0.13.5", default-features = false, features = ["json", "cookies", "form"] }
serde = { version = "*", features = ["derive"] }
serde_json = "*"
simple_logger = "*"
tokio = { version = "*", features = ["rt-multi-thread", "macros", "time"] }
yapp = "*"
