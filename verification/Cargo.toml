[package]
name = "audioleaf"
version = "0.1.0"
edition = "2021"
publish = false

[dependencies]
anyhow = "1"
base64 = "0.22"
toml = "*"
toml_edit = "*"
serde = { version = "1", features = ["derive"] }
serde_json = "1"
reqwest = { version = "*", default-features = false, features = ["blocking", "json"] }
clap = { version = "4", features = ["derive"] }
num-complex = "0.4"
palette = "0.7"
cpal = "*"
dasp_sample = "*"
flume = "*"
parking_lot = "*"
hashbrown = "*"
dirs = "*"
quick-xml = "*"
image = { version = "*", default-features = false, features = ["jpeg", "png"] }
auto-palette = "*"
axum = "0.8"
tokio = { version = "1", features = ["rt-multi-thread", "macros", "net", "time"] }
tower-http = { version = "*", features = ["cors"] }
ratatui = "*"
