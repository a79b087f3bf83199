[package]
name = "sps_runtime"
version = "0.1.0"
edition = "2021"
publish = false

[dependencies]
uuid = { version = "=1.29.0", features = ["v4", "v7"] }
serde = { version = "=1.0.229", features = ["derive"] }
serde_json = "=1.0.154"
ed25519-dalek = { version = "=2.2.0", features = ["rand_core"] }
rand_core = { version = "=0.6.4", features = ["getrandom"] }
base64 = "=0.22.1"
chrono = "=0.4.45"
once_cell = "=1.21.4"
toml = "=0.8.23"
tiny_http = "=0.12.0"
rusqlite = { version = "=0.31.0", features = ["bundled"] }
tokio = { version = "=1.54.1", features = ["sync", "rt-multi-thread"] }
teloxide = { version = "=0.17.0", default-features = false, features = ["macros", "rustls", "ctrlc_handler"] }
hnsw_rs = "=0.3.5"
takecell = "=0.1.1"
