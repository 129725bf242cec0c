[package]
name = "screentime_pro"
version = "0.1.0"
edition = "2021"
publish = false

[dependencies]
regex = "1"
lru = "*"
sha2 = "0.10"
base64 = "0.22"
serde = { version = "1", features = ["derive"] }
serde_json = "1"
chrono = "0.4"
rusqlite = { version = "*", features = ["bundled"] }
thiserror = "*"
gethostname = "*"
libc = "0.2"
tracing = "0.1"
reqwest = { version = "0.12", default-features = false, features = ["blocking", "json", "rustls-tls"] }
trash = "*"
open = "*"
