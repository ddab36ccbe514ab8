[package]
name = "clipboard_sync"
version = "0.1.0"
edition = "2021"
publish = false

[dependencies]
bytes = "1"
tokio = { version = "1", features = ["sync", "net", "io-util", "rt-multi-thread", "macros", "time"] }
rand = "0.8"
serde = { version = "1", features = ["derive"] }
serde_json = "1"
thiserror = "1"
anyhow = "1"
log = "0.4"
log4rs = "1"
delay_timer = "0.11"
num_threads = "0.1"
