[package]
name = "blenny"
version = "0.1.0"
edition = "2021"
publish = false

[dependencies]
tokio = { version = "=1.54.1", features = ["sync", "rt-multi-thread", "macros", "net", "time"] }
uuid = { version = "=1.29.0", features = ["v4"] }
datastar = "=0.4.1"
serde_json = "=1.0.154"
mime_guess = "=2.0.5"
axum = { version = "=0.8.9", features = ["ws"] }
axum-extra = { version = "=0.10.3", features = ["cookie"] }
tera = "=1.20.1"
notify = "=8.2.1"
rust-embed = { version = "=8.13.0", features = ["interpolate-folder-path"] }
jsonwebtoken = { version = "=11.1.0", default-features = false, features = ["rust_crypto"] }
figment = { version = "=0.10.19", features = ["env", "json"] }
serde = { version = "=1.0.229", features = ["derive"] }
chrono = "=0.4.45"
time = "=0.3.55"
tower = "=0.5.3"
tower-http = { version = "=0.6.11", features = ["fs"] }
tracing = "=0.1.44"
tracing-subscriber = { version = "=0.3.23", features = ["env-filter"] }
futures = "=0.3.34"
async-stream = "=0.3.6"
inventory = "=0.3.25"
syn = { version = "=2.0.119", features = ["full", "parsing"] }
thiserror = "=2.0.21"
