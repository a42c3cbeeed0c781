[package]
name = "prek_sarif"
version = "0.1.0"
edition = "2021"
publish = false

[dependencies]
anyhow = "*"
fs-err = "*"
serde = { version = "*", features = ["derive"] }
serde_json = "*"
serde-saphyr = "*"
tokio = { version = "*", features = ["process", "io-util"] }
