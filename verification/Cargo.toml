[package]
name = "witness_tools"
version = "0.1.0"
edition = "2021"
publish = false

[dependencies]
alloy-chains = { version = "*", default-features = false }
alloy-consensus = { version = "*", default-features = false, features = ["std"] }
alloy-eips = { version = "*", default-features = false, features = ["std"] }
alloy-genesis = { version = "*", default-features = false, features = ["std"] }
alloy-primitives = { version = "*", default-features = false, features = ["std"] }
alloy-rlp = { version = "*", default-features = false, features = ["std"] }
alloy-rpc-types-eth = { version = "*", default-features = false, features = ["std", "serde"] }
anyhow = "*"
axum = { version = "*", default-features = false, features = ["http1", "json", "tokio"] }
clap = { version = "*", features = ["derive"] }
http = "*"
serde = { version = "*", features = ["derive"] }
serde_json = "*"
tokio = { version = "*", features = ["rt-multi-thread", "macros", "net", "signal"] }
tokio-util = { version = "*", default-features = false }
tracing = "*"
tracing-subscriber = { version = "*", features = ["env-filter"] }
walkdir = "*"
