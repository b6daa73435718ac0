[package]
name = "stream_inspector"
version = "0.1.0"
edition = "2021"
publish = false

[dependencies]
async-log = "2"
async-trait = "0.1"
chrono = "0.4"
chrono-tz = "0.6"
clap = "2"
env_logger = "0.9"
google-youtube3 = "2"
hyper = "0.14"
hyper-rustls = "0.22"
log = "0.4"
tokio = { version = "1", features = ["rt", "net", "time"] }
yup-oauth2 = "5"
