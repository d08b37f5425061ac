[package]
name = "llogin"
version = "0.1.0"
edition = "2021"
publish = false

[dependencies]
clap = { version = "4", features = ["derive"] }
colored = "2"
dialoguer = "0.11"
dirs-next = "2"
native-tls = "0.2"
regex = "1"
serde = { version = "1", features = ["derive"] }
serde_json = "1"
ureq = { version = "2", default-features = false, features = ["native-tls", "gzip"] }
