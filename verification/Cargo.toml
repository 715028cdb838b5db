[package]
name = "mxu"
version = "0.1.0"
edition = "2021"
publish = false

[dependencies]
axum = { version = "=0.7.9", default-features = false, features = ["http1", "json", "query", "tokio", "ws"] }
chrono = { version = "=0.4.45", default-features = false, features = ["clock"] }
libc = "0.2"
log = "0.4"
reqwest = { version = "=0.12.28", default-features = false }
rust-embed = "8"
serde = { version = "1", features = ["derive"] }
serde_json = "=1.0.154"
tauri = { version = "2", default-features = false }
tokio = { version = "1", features = ["macros", "net", "rt-multi-thread", "sync", "time"] }
tower-http = { version = "0.6", features = ["cors", "fs"] }
trash = { version = "5", default-features = false }
