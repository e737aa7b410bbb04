[package]
name = "aci_server"
version = "0.1.0"
edition = "2021"
publish = false

[dependencies]
chashmap = "*"
serde_json = "*"
log = "*"
simple_logger = "*"
structopt = "*"
clap-verbosity-flag = "*"
google-signin = "*"
futures-util = "*"
tokio = { version = "*", features = ["full"] }
tokio-tungstenite = "*"
