[package]
name = "adios"
version = "0.1.0"
edition = "2021"
publish = false

[dependencies]
bilge = "0.2"
clap = { version = "4", features = ["derive"] }
clio = { version = "0.3", features = ["clap-parse"] }
env_logger = "0.11"
log = "0.4"
nom = "7"
quick-xml = { version = "0.37", features = ["serialize"] }
serde = { version = "1", features = ["derive"] }
svd-parser = "0.14"
svd-rs = "0.14"
