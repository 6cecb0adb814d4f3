[package]
name = "lash_harness_opt"
version = "0.1.0"
edition = "2021"
publish = false

[dependencies]
anyhow = "=1.0.104"
async-trait = "=0.1.92"
clap = { version = "=4.6.7", features = ["derive"] }
dirs = "=7.0.0"
rusqlite = { version = "=0.41.1", features = ["bundled"] }
serde = { version = "1", features = ["derive"] }
serde_json = { version = "=1.0.154", features = ["preserve_order"] }
tokio = { version = "=1.54.1", features = ["fs", "macros", "process", "rt-multi-thread", "sync", "time"] }
tokio-util = "=0.7.20"
uuid = { version = "=1.29.0", features = ["v4"] }
