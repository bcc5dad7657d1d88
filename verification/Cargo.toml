[package]
name = "cache"
version = "0.1.0"
edition = "2021"
publish = false

[dependencies]
anyhow = "=1.0.104"
arrow = "=53.4.1"
arrow-schema = "=53.4.1"
async-trait = "=0.1.92"
config = "=0.14.1"
datafusion = { version = "=43.0.0", default-features = false, features = ["parquet"] }
object_store = { version = "=0.11.2", features = ["aws"] }
prost-build = "=0.13.5"
prost-reflect = "=0.14.7"
serde = { version = "=1.0.229", features = ["derive"] }
serde_json = "=1.0.154"
tempfile = "=3.27.0"
tokio = { version = "=1.54.1", features = ["rt-multi-thread", "macros", "sync", "fs"] }
url = "=2.5.8"
