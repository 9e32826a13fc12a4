[package]
name = "yadgar-dial"
version = "0.2.0"
edition = "2021"
publish = false

[dependencies]
metrics = "0.24"
rustls = { version = "0.23", default-features = false, features = ["ring", "std"] }
rustls-pki-types = { version = "1", features = ["std"] }
thiserror = "2"
tokio = { version = "1", features = ["net", "rt", "sync", "time"] }
tonic = { version = "0.14", default-features = false, features = ["channel", "tls-ring"] }
tracing = "0.1"

[dev-dependencies]
rcgen = "0.14"
