[package]
name = "dora_nodes"
version = "0.1.0"
edition = "2021"
publish = false

[dependencies]
aligned-vec = "0.5"
clap = { version = "4", features = ["derive"] }
clonable-command = "*"
crossbeam = "0.8"
duration-str = "*"
eyre = "0.6"
flume = "0.10"
process-wrap = { version = "8", features = ["tokio1"] }
serde = { version = "1", features = ["derive"] }
serde_json = "1"
tokio = { version = "1", features = ["full"] }
tracing = "0.1"
uuid = { version = "1", features = ["serde"] }
