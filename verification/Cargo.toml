[package]
name = "ocp_midstreamer"
version = "0.1.0"
edition = "2021"
publish = false

[dependencies]
anyhow = "1"
chrono = "0.4"
clap = { version = "4", features = ["derive"] }
console = "*"
futures = "0.3"
indicatif = "*"
k8s-openapi = { version = "*", features = ["latest"] }
kube = "*"
quick-xml = { version = "*", features = ["serialize"] }
regex = "1"
serde = { version = "1", features = ["derive"] }
serde_json = "1"
serde_yaml = "0.9"
tempfile = "3"
tokio = { version = "1", features = ["full"] }
toml = "*"
which = "*"
