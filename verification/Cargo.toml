[package]
name = "gmacftp"
version = "0.2.2"
edition = "2021"
publish = false

[dependencies]
libc = "0.2"
rand = "=0.8.8"
serde = { version = "1", features = ["derive"] }
serde_json = "1"
sha2 = "=0.10.9"
suppaftp = { version = "=10.0.2", default-features = false, features = ["rustls-ring", "deprecated"] }
thiserror = "2"
tracing = "0.1"
tracing-subscriber = { version = "0.3", features = ["env-filter"] }
trash = "5"
zeroize = "1"
