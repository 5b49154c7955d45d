[package]
name = "opsml_cli"
version = "0.1.0"
edition = "2021"
publish = false

[dependencies]
anyhow = "*"
clap = { version = "*", features = ["derive"] }
futures-util = "*"
owo-colors = "*"
reqwest = { version = "*", default-features = false, features = ["json", "stream"] }
serde = { version = "*", features = ["derive"] }
serde_json = "*"
tabled = "*"
tokio = { version = "*", features = ["rt-multi-thread", "macros", "fs", "io-util"] }
