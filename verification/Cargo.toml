[package]
name = "umbra"
version = "0.1.0"
edition = "2021"
publish = false

[dependencies]
http = "0.2"
hyper = { version = "0.14", features = ["full"] }
tokio = { version = "1", features = ["full"] }
clap = "2"
fern = "0.6"
chrono = "0.4"
log = "0.4"
thiserror = "1"
