[package]
name = "freeswitch_esl_tokio"
version = "0.1.0"
edition = "2021"
publish = false

[dependencies]
freeswitch-types = "=1.10.0"
indexmap = "=2.14.2"
percent-encoding = "=2.3.2"
serde = { version = "=1.0.229", features = ["derive"] }
serde_json = "=1.0.154"
quick-xml = "=0.39.4"
bytes = "=1.12.1"
thiserror = "=2.0.21"
tokio = { version = "=1.54.1", features = ["full"] }
futures-util = "=0.3.34"
tracing = "=0.1.44"
