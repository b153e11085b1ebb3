[package]
name = "mtp_audioplayer"
version = "0.1.0"
edition = "2021"
publish = false

[dependencies]
chrono = "0.4"
clap = "3.2"
cpal = "0.13"
flexi_logger = "0.22"
futures = "0.3"
hound = "3"
log = "0.4"
nom = "7"
roxmltree = "0.14"
serde = { version = "1", features = ["derive"] }
serde_json = "1"
tokio = { version = "1", features = ["full"] }
