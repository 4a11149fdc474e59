[package]
name = "malstrom"
version = "0.1.0"
edition = "2021"
publish = false

[dependencies]
indexmap = "=2.14.2"
rmp-serde = "=1.3.1"
serde = { version = "=1.0.229", features = ["derive"] }
serde_json = "=1.0.154"
thiserror = "=2.0.21"
flume = "=0.11.1"
futures = "=0.3.34"
tokio = { version = "=1.54.1", features = ["rt-multi-thread", "sync", "time", "macros"] }
k8s-openapi = { version = "=0.29.0", features = ["latest", "schemars"] }
kube = { version = "=5.0.0", default-features = false, features = ["client", "derive"] }
object_store = { version = "=0.14.2", default-features = false }
rdkafka = "=0.39.0"
schemars = "=1.2.3"
slatedb = { version = "=0.18.0", default-features = false }
