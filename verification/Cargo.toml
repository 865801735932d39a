[package]
name = "rstream"
version = "0.1.0"
edition = "2021"
publish = false

[dependencies]
anyhow = "1"
atty = "0.2"
axum = "0.7"
axum-macros = "0.4"
base64ct = { version = "1", features = ["alloc"] }
clap = { version = "4", features = ["derive"] }
id3 = "1"
jwalk = "0.8"
md-5 = "0.10"
mime_guess = "2"
serde = { version = "1", features = ["derive"] }
sqlite = "0.36"
tokio = { version = "1", features = ["full"] }
tower-http = { version = "0.5", features = ["fs", "trace"] }
tracing = "0.1"
tracing-subscriber = "0.3"
