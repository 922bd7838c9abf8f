[package]
name = "motorx"
version = "0.1.0"
edition = "2021"
publish = false

[dependencies]
regex = "*"
bytes = "*"
http = "*"
http-body-util = "*"
hyper = { version = "*", features = ["client", "server", "http1", "http2"] }
hyper-util = { version = "*", features = ["client", "client-legacy", "server", "server-auto", "http1", "http2", "tokio"] }
itertools = "*"
rustls = "*"
rustls-pemfile = "*"
serde = { version = "*", features = ["derive"] }
serde_json = "*"
tokio = { version = "*", features = ["full"] }
tracing = "*"
tracing-subscriber = { version = "*", features = ["env-filter"] }
