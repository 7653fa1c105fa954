[package]
name = "dsh_tui"
version = "0.1.0"
edition = "2021"
publish = false

[dependencies]
crossterm = "0.29"
futures = "0.3"
napi = { version = "*", features = ["napi4", "async", "tokio_rt"] }
napi-derive = "*"
ratatui-core = "*"
serde = { version = "1", features = ["derive"] }
serde_json = "1"
tokio = { version = "1", features = ["rt", "sync", "macros", "signal", "net", "io-util"] }
unicode-segmentation = "1"
