[package]
name = "block_sync"
version = "0.1.0"
edition = "2021"
publish = false

[dependencies]
alloy = { version = "0.1", default-features = false, features = ["std", "providers", "provider-ws", "pubsub", "rpc-types", "eips"] }
eyre = "0.6"
tokio = { version = "1", features = ["macros", "rt-multi-thread"] }
futures-util = "0.3"
dotenv = "0.15"
serde = { version = "1", features = ["derive"] }
