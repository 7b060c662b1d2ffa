[package]
name = "http_server_rs"
version = "0.1.0"
edition = "2021"
publish = false

[dependencies]
anyhow = "1"
base64 = "0.22"
brotli = "*"
chrono = "0.4"
clap = { version = "4", features = ["derive"] }
colored = "*"
futures = "0.3"
handlebars = "*"
http = "1"
http-body-util = "0.1"
hyper = { version = "1", features = ["http1", "server"] }
hyper-util = { version = "0.1", features = ["tokio"] }
mime_guess = "2"
normalize-path = "*"
notify-debouncer-full = "*"
num_cpus = "1"
pathdiff = "0.2"
serde_json = "1"
tokio = { version = "1", features = ["full"] }
tokio-util = { version = "0.7", features = ["io"] }
unix_mode = "*"
urlencoding = "2"
