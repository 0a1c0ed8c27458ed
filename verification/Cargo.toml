[package]
name = "quakeml"
version = "0.1.0"
edition = "2021"
publish = false

[dependencies]
xmltree = { version = "*", features = ["attribute-order"] }
chrono = "0.4"
clap = "2"
structopt = "0.3"
env_logger = "*"
log = "*"
reqwest = { version = "*", default-features = false, features = ["rustls-tls"] }
tokio = { version = "1", features = ["rt-multi-thread", "macros"] }
