[package]
name = "pxls_rs"
version = "0.1.0"
edition = "2021"
publish = false

[dependencies]
http = "=0.2.12"
chrono = { version = "=0.4.45", default-features = false, features = ["std"] }
url = "=2.5.8"
base64 = "=0.22.1"
warp = "=0.3.7"
serde = { version = "=1.0.229", features = ["derive"] }
tokio = { version = "=1.54.1", features = ["macros", "rt-multi-thread", "sync", "signal"] }
futures-util = "=0.3.34"
rand = "=0.8.8"
tinyrand = "=0.5.0"
ldap3 = { version = "=0.11.5", default-features = false }
sea-query = { version = "0.32", default-features = false, features = ["backend-postgres"] }
