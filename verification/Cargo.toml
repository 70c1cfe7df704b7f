[package]
name = "kubus"
version = "0.1.0"
edition = "2021"
publish = false

[dependencies]
regex = "1"
clap = "4"
kube = { version = "*", default-features = false, features = ["client"] }
k8s-openapi = { version = "*", features = ["latest"] }
tokio = { version = "1", features = ["macros", "rt-multi-thread", "sync"] }
log = "0.4"
