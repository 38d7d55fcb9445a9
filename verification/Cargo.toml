[package]
name = "ccm-dsm"
version = "0.1.0"
edition = "2021"
publish = false

[dependencies]
anyhow = "=1.0.104"
async-trait = "=0.1.92"
base64 = "=0.22.1"
clap = { version = "=4.6.7", features = ["derive"] }
hex = "=0.4.3"
jwt-simple = { version = "=0.12.17", default-features = false, features = ["pure-rust"] }
kbs-types = "=0.18.0"
native-tls = "=0.2.18"
openssl = "=0.10.82"
reqwest = { version = "=0.12.28", default-features = false }
sdkms = "=0.5.1"
serde = { version = "=1.0.229", features = ["derive"] }
serde_json = "=1.0.154"
simple-hyper-client = { version = "=0.1.3", features = ["native-tls"] }
tokio = { version = "=1.54.1", features = ["fs", "rt", "rt-multi-thread", "sync", "macros"] }
tonic = "=0.12.3"
tracing = "=0.1.44"
uuid = { version = "=1.29.0", features = ["v4"] }
x509-cert = "=0.2.5"

[dev-dependencies]
toml = "=0.8.23"
