[package]
name = "tuono"
version = "0.1.0"
edition = "2021"
publish = false

[dependencies]
regex = "1"
convert_case = "*"
syn = { version = "2", features = ["full", "extra-traits"] }
serde = { version = "1", features = ["derive"] }
serde_json = "1"
serde_urlencoded = "*"
axum = "0.8"
clap = { version = "4", features = ["derive", "cargo"] }
glob = "*"
fs_extra = "*"
tracing = "*"
tracing-subscriber = { version = "*", features = ["env-filter"] }
reqwest = { version = "0.12", default-features = false, features = ["blocking", "json", "rustls-tls"] }
tokio = { version = "1", features = ["full"] }
tower-http = { version = "*", features = ["fs"] }
colored = "*"
console = "*"
spinners = "*"
miette = "*"
watchexec = "*"
watchexec-events = "*"
watchexec-signals = "*"
watchexec-supervisor = "*"
once_cell = "*"
erased-serde = "*"
