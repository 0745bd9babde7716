[package]
name = "ipblocklist"
version = "0.1.0"
edition = "2021"
publish = false

[dependencies]
reqwest = { version = "=0.13.5", default-features = false, features = ["gzip", "brotli", "deflate", "stream"] }
tokio = { version = "=1.53.2", features = ["rt-multi-thread", "macros", "time", "sync"] }
futures = "=0.3.34"
warp = { version = "=0.4.3", default-features = false, features = ["server"] }
log = "=0.4.34"
env_logger = "=0.11.11"
