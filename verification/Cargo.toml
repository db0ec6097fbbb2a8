[package]
name = "gan_robot"
version = "0.1.0"
edition = "2021"
publish = false

[dependencies]
anyhow = "1"
btleplug = "*"
clap = { version = "4", features = ["derive", "env"] }
env_logger = "0.11"
futures = "0.3"
jiff = "*"
log = "0.4"
rand = "0.8"
tokio = { version = "1", features = ["macros", "rt-multi-thread", "time"] }
uuid = "1"
