[package]
name = "tonic_clap"
version = "0.1.0"
edition = "2021"
publish = false

[dependencies]
serde_json = "*"
tokio = { version = "*", features = ["rt", "macros", "time", "net"] }
tonic = "*"
tonic-prost = "*"
prost = "*"
prost-build = "*"
tonic-prost-build = "*"
clap = { version = "*", features = ["derive"] }
