[package]
name = "cage"
version = "0.1.0"
edition = "2021"
publish = false

[dependencies]
compose_yml = "*"
regex = "1"
url = "2"
shlex = "1"
semver = "1"
serde = { version = "1", features = ["derive"] }
serde_yaml = "0.9"
serde_json = "1"
rand = "0.8"
anyhow = "1"
thiserror = "1"
clap = { version = "4", features = ["derive"] }
clap_complete = "4"
colored = "2"
itertools = "*"
env_logger = "*"
log = "0.4"
dirs = "*"
rayon = "1"
tokio = { version = "1", features = ["rt"] }
bollard = "*"
