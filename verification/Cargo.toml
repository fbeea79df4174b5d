[package]
name = "aien_local_stack"
version = "0.1.0"
edition = "2021"
publish = false

[dependencies]
async-trait = "0.1"
libc = "0.2"
parking_lot = "0.12"
serde = { version = "1", features = ["derive"] }
serde_json = "1"
tokio = { version = "1", features = ["macros", "rt-multi-thread"] }
tracing = "0.1"
tracing-subscriber = "0.3"
uuid = { version = "1", features = ["v4", "serde"] }
