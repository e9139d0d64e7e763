[package]
name = "yadgar-lifecycle"
version = "0.1.0"
edition = "2021"
publish = false

[dependencies]
metrics = "0.24"
rustls-pki-types = { version = "1", features = ["std"] }
serde = { version = "1", features = ["derive"] }
serde_norway = "0.9"
sha2 = "0.10"
thiserror = "2"
tokio = { version = "1", features = ["macros", "net", "rt", "signal", "sync", "time"] }
tracing = "0.1"
x509-parser = "*"

[dev-dependencies]
rcgen = "*"
