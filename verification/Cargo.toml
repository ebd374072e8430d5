[package]
name = "control_plane"
version = "0.1.0"
edition = "2021"
publish = false

[dependencies]
a2a-lf = "=0.3.1"
a2a-server-lf = { version = "0.4", default-features = false }
anyhow = "1"
async-stream = "0.3"
async-trait = "0.1"
axum = "0.8"
base64 = "=0.22.1"
futures = "0.3"
ipnet = "=2.12.2"
reqwest = { version = "=0.12.28", default-features = false, features = ["json"] }
ring = "=0.17.14"
serde = { version = "1", features = ["derive"] }
serde_json = "=1.0.154"
sqlx = { version = "=0.8.6", default-features = false, features = ["postgres", "runtime-tokio", "uuid", "time", "json", "macros", "migrate"] }
time = { version = "=0.3.55", features = ["serde", "formatting", "parsing"] }
tokio = { version = "1", features = ["rt-multi-thread", "macros", "net", "time", "sync"] }
tracing = "0.1"
url = "=2.5.8"
uuid = { version = "=1.29.0", features = ["v4", "v7", "serde"] }
