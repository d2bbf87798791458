[package]
name = "mijia_bridge"
version = "0.1.0"
edition = "2021"
publish = false

[dependencies]
anyhow = "1"
async-channel = "*"
btleplug = "0.4"
color-backtrace = "*"
dotenv = "*"
failure = "0.1"
futures = "0.3"
log = "0.4"
pretty_env_logger = "*"
rumqttc = "*"
rustls = "*"
rustls-native-certs = "*"
tokio = { version = "1", features = ["macros", "rt-multi-thread"] }
