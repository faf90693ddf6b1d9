[package]
name = "overwatch"
version = "0.1.0"
edition = "2021"
publish = false

[dependencies]
convert_case = "0.6"
tokio = { version = "1", features = ["full"] }
thiserror = "2"
serde = { version = "1", features = ["derive"] }
serde_json = "1"
tracing = "0.1"
async-trait = "0.1"
futures = "0.3"
tokio-stream = { version = "0.1", features = ["sync"] }
tokio-util = "0.7"
const_format = "0.2"
syn = { version = "2", features = ["full"] }
quote = "1"
proc-macro2 = "1"
