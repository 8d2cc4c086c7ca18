[package]
name = "title_grabber_rs"
version = "0.1.0"
edition = "2021"
publish = false

[dependencies]
clap = "2"
csv = "1"
flexi_logger = "*"
log = "0.4"
num_cpus = "1"
reqwest = { version = "0.12", default-features = false, features = ["blocking", "rustls-tls"] }
scoped_threadpool = "0.1"
scraper = "*"
serde = { version = "1", features = ["derive"] }
url = "2"

[dev-dependencies]
regex = "1"
