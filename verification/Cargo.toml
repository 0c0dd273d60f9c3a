[package]
name = "segestria_core"
version = "0.1.0"
edition = "2021"
publish = false

[dependencies]
md-5 = "=0.10.6"
sha1 = "=0.10.7"
hex = "=0.4.3"
uuid = "=1.29.0"
sysinfo = "=0.37.2"
dirs = "=7.0.0"
reqwest = { version = "=0.12.28", default-features = false, features = ["json", "rustls-tls"] }
tokio = { version = "=1.54.1", features = ["fs", "net", "process", "time", "io-util", "rt-multi-thread", "macros"] }
futures-util = "=0.3.34"
zip = { version = "=2.6.1", default-features = false, features = ["deflate"] }
serde = { version = "=1.0.229", features = ["derive"] }
serde_json = "=1.0.154"
thiserror = "=2.0.21"
