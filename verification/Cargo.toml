[package]
name = "malkuth"
version = "0.1.0"
edition = "2021"
publish = false

[dependencies]
serde_json = "1"
serde = { version = "1", features = ["derive"] }
tokio = { version = "1", features = ["full"] }
async-trait = "0.1"
futures-util = { version = "0.3", features = ["io"] }
futures-io = "0.3"
clap = { version = "4", features = ["derive"] }
tracing = "0.1"
tracing-subscriber = { version = "0.3", features = ["env-filter", "fmt"] }
toml = "0.8"
libc = "0.2"
chrono = "0.4"
notify = "*"
tokio-tungstenite = "*"
interprocess = { version = "2", features = ["tokio"] }
tokio-util = { version = "0.7", features = ["compat"] }
tokio-postgres = "0.7"
axum = "*"
event-listener = "5"
thiserror = "*"
async-net = "2"
schemars = "*"
rmcp = { version = "*", features = ["server", "macros", "transport-io"] }
reqwest = { version = "*", default-features = false }
