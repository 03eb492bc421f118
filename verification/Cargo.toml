[package]
name = "warming"
version = "0.1.0"
edition = "2021"
publish = false

[dependencies]
midly = "=0.5.3"
async-trait = "=0.1.92"
notify = "=8.2.1"
serde = { version = "=1.0.229", features = ["derive"] }
serde_json = "=1.0.154"
tokio = { version = "=1.54.1", features = ["sync", "rt", "rt-multi-thread", "macros"] }
