[package]
name = "mini_rpc"
version = "0.1.0"
edition = "2021"
publish = false

[dependencies]
axum = "*"
futures-util = "=0.3.31"
reqwest = { version = "*", default-features = false, features = ["json"] }
serde = { version = "1", features = ["derive"] }
serde_json = "1"
tokio = { version = "1", features = ["macros", "rt-multi-thread", "net", "time"] }
