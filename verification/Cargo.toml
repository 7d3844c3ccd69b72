[package]
name = "allegro-mcp"
version = "0.1.0"
edition = "2021"
publish = false

[dependencies]
anyhow = "1"
axum = "0.8"
clap = { version = "4", features = ["derive"] }
dirs = "6"
httpdate = "1"
openapiv3 = "2"
reqwest = { version = "0.12", default-features = false, features = ["json"] }
rmcp = { version = "*", features = ["server", "transport-io", "transport-streamable-http-server"] }
serde = { version = "1", features = ["derive"] }
serde_json = { version = "1", features = ["preserve_order", "float_roundtrip"] }
serde_yaml = "0.9"
sha2 = "0.10"
thiserror = "2"
tokio = { version = "1", features = ["rt-multi-thread", "macros", "net", "time", "sync", "io-util", "io-std"] }
toml = { version = "0.8", features = ["preserve_order"] }
tracing = "0.1"
tracing-subscriber = "0.3"
