[package]
name = "vpad_core"
version = "0.1.0"
edition = "2021"
publish = false

[dependencies]
bytes = "1"
midi-control = { version = "0.2", default-features = false }
rand = "0.8"
tokio = { version = "1", features = ["rt-multi-thread", "macros", "net", "sync", "time", "io-util"] }
tokio-util = { version = "0.7", features = ["codec"] }
futures-util = { version = "0.3", features = ["sink"] }
midir = "*"
clap = { version = "4", features = ["derive"] }
log = "0.4"
log4rs = "1"
network-interface = "1"
qr2term = "0.3"
