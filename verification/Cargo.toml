[package]
name = "rotate_keys"
version = "0.1.0"
edition = "2021"
publish = false

[dependencies]
base64 = "=0.22.1"
chrono = "=0.4.45"
env_logger = "=0.11.11"
futures = "=0.3.34"
k8s-openapi = { version = "=0.28.0", features = ["v1_36"] }
kube = { version = "=4.2.0", features = ["runtime", "derive", "client", "rustls-tls"] }
kube-core = "=4.2.0"
kube-operator-util = "=1.2.2"
log = "=0.4.35"
openssl = "=0.10.82"
rust_string_utils = "=0.1.20"
rustls = { version = "=0.23.46", default-features = false, features = ["ring", "std", "logging", "tls12"] }
schemars = "=1.2.3"
serde = { version = "=1.0.229", features = ["derive"] }
serde_json = "=1.0.154"
serde_yaml = "=0.9.34"
thiserror = "=2.0.21"
tokio = { version = "=1.54.1", features = ["macros", "rt-multi-thread", "time"] }
uuid = { version = "=1.29.0", features = ["v4"] }
