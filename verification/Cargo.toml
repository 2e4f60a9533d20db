[package]
name = "cgi_server"
version = "0.1.0"
edition = "2021"
publish = false

[dependencies]
hyper = { version = "*", features = ["full"] }
http = "*"
bytes = "*"
futures = "*"
http-body-util = "*"
hyper-util = { version = "*", features = ["full"] }
tokio = { version = "*", features = ["full"] }
tokio-util = "*"
tower = { version = "*", features = ["full"] }
tower-http = { version = "*", features = ["timeout"] }
clap = { version = "*", features = ["derive"] }
pin-project = "*"
