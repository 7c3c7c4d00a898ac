[package]
name = "oxapy"
version = "0.1.0"
edition = "2021"
publish = false

[dependencies]
url = "*"
hyper = { version = "*", features = ["http1", "server"] }
hyper-util = { version = "*", features = ["tokio"] }
http-body-util = "*"
tokio = { version = "*", features = ["rt-multi-thread", "net", "sync", "macros", "time"] }
ctrlc = "*"
