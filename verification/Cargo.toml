[package]
name = "docdb"
version = "0.1.0"
edition = "2021"
publish = false

[dependencies]
rocksdb = "0.22"
serde_json = "1"
tokio = { version = "1", features = ["full"] }
uuid = { version = "1", features = ["v4"] }
warp = "0.3"
