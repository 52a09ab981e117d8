[package]
name = "segment_index"
version = "0.1.0"
edition = "2021"
publish = false

[dependencies]
bloomfilter = "1"
memory-stats = "1"
serde = { version = "1", features = ["derive"] }
serde_json = "1"
tokio = { version = "1", features = ["macros", "rt-multi-thread"] }
warp = { version = "0.3", default-features = false }
