[package]
name = "query_prompt"
version = "0.1.0"
edition = "2021"
publish = false

[dependencies]
anyhow = "*"
crossterm = { version = "*", features = ["event-stream"] }
futures = "*"
serde = { version = "*", features = ["derive"] }
serde_json = "*"
tinytemplate = "*"
tokio = { version = "*", features = ["macros", "rt-multi-thread", "time"] }
