[package]
name = "stamp"
version = "0.1.0"
edition = "2021"
publish = false

[dependencies]
regex = "=1.13.1"
itertools = "=0.10.5"
url = "=2.5.8"
serde_json = "=1.0.154"
serde = { version = "=1.0.229", features = ["derive"] }
ureq = { version = "=2.12.1", default-features = false }
thiserror = "=1.0.69"
tracing = "=0.1.44"
tracing-subscriber = { version = "=0.3.23", default-features = false, features = ["std", "fmt", "env-filter"] }
lazy_static = "=1.5.1"
iced = { version = "0.3", features = ["image", "tokio"] }
