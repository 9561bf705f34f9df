[package]
name = "okclai"
version = "0.1.0"
edition = "2021"
publish = false

[dependencies]
anyhow = "*"
eventsource-client = "=0.12.2"
futures = "*"
reqwest = { version = "*", default-features = false }
structopt = "*"
tokio = { version = "*", features = ["macros", "rt-multi-thread"] }
