[package]
name = "whitt"
version = "0.1.0"
edition = "2021"
publish = false

[dependencies]
anyhow = "1"
async-trait = "*"
fastrand = "2"
futures = "0.3"
regex = "1"
reqwest = { version = "*", default-features = false, features = ["json"] }
serde = { version = "1", features = ["derive"] }
serde_json = { version = "1", features = ["preserve_order"] }
serde-saphyr = "*"
thiserror = "*"
tokio = { version = "1", features = ["rt", "rt-multi-thread", "macros", "time", "fs", "process", "sync"] }
tracing = "0.1"
walkdir = "2"
