[package]
name = "bifrost"
version = "0.1.0"
edition = "2021"
publish = false

[dependencies]
bytes = "=0.4.12"
http = "=0.1.21"
bytecodec = "=0.4.15"
stun_codec = "=0.1.13"
futures-preview = "=0.3.0-alpha.19"
futures-core-preview = "=0.3.0-alpha.19"
futures-util-preview = { version = "=0.3.0-alpha.19", features = ["sink"] }
tokio-codec = "=0.2.0-alpha.6"
tokio-executor = "=0.2.0-alpha.6"
tokio-net = { version = "=0.2.0-alpha.6", features = ["udp"] }
tokio-sync = { version = "=0.2.0-alpha.6", features = ["async-traits"] }
tokio-timer = "=0.3.0-alpha.6"

[dev-dependencies]
nom = "5"
