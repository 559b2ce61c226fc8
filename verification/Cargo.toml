[package]
name = "tool_fetch"
version = "0.1.0"
edition = "2021"
publish = false

[dependencies]
anyhow = "1"
directories = "4"
flate2 = "1"
futures-util = "0.3"
once_cell = "1"
reqwest = { version = "0.11", default-features = false, features = ["rustls-tls", "stream"] }
tar = { version = "0.4", default-features = false }
tokio = { version = "1", features = ["full"] }
tracing = "0.1"
which = "4"
zip = { version = "0.6", default-features = false, features = ["deflate"] }
