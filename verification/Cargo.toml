[package]
name = "customers"
version = "0.1.0"
edition = "2021"
publish = false

[dependencies]
uuid = { version = "=1.27.0", features = ["v4"] }
tokio = { version = "=1.53.2", features = ["macros", "rt-multi-thread"] }
tokio-postgres = { version = "=0.7.18", features = ["with-uuid-1"] }
warp = { version = "=0.4.3", features = ["server"] }
juniper = "=0.17.1"
serde_json = "=1.0.151"
