[package]
name = "roe_core"
version = "0.1.0"
edition = "2021"
publish = false

[dependencies]
arboard = { version = "=3.7.0", default-features = false }
compio = { version = "=0.19.2", features = ["fs", "process", "runtime", "time", "macros"] }
futures-util = "=0.3.34"
jlrs = { version = "=0.22.1", features = ["async-rt", "tokio-rt", "jlrs-derive"] }
notify = "=8.2.1"
ropey = "=1.6.1"
serde = { version = "1", features = ["derive"] }
similar = "=2.7.0"
slotmap = "=1.1.1"
thiserror = "=2.0.21"
tokio = { version = "=1.54.1", features = ["rt-multi-thread", "sync", "macros", "time"] }
tracing = "=0.1.44"
