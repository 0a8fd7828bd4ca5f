[package]
name = "functional-kube"
version = "0.1.0"
edition = "2021"
publish = false

[dependencies]
kube = { version = "1", default-features = false, features = ["runtime"] }
k8s-openapi = { version = "0.25", features = ["latest"] }
jiff = "0.2"
async-trait = "0.1"
tracing = "0.1"
