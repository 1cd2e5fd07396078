[package]
name = "satori_rs_agent"
version = "0.1.0"
edition = "2021"
publish = false

[dependencies]
serde_json = "=1.0.154"
uuid = { version = "=1.29.1", features = ["v4", "serde"] }
serde = { version = "=1.0.229", features = ["derive"] }
thiserror = "=2.0.21"
async-trait = "=0.1.92"
tokio = { version = "=1.54.1", features = ["sync", "rt", "rt-multi-thread", "macros"] }
reqwest = { version = "=0.12.28", default-features = false, features = ["json"] }
