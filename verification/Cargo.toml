[package]
name = "neco"
version = "0.1.0"
edition = "2021"
publish = false

[dependencies]
sysinfo = "0.30"
serde = { version = "1", features = ["derive"] }
serde_json = "1"
reqwest = { version = "0.12", default-features = false, features = ["json"] }
tokio = { version = "1", features = ["rt-multi-thread", "macros"] }
async-trait = "0.1"
clap = { version = "4", features = ["derive"] }
