[package]
name = "code_agent"
version = "0.1.0"
edition = "2021"
publish = false

[dependencies]
anyhow = "1"
clap = { version = "4", features = ["derive"] }
colored = "2"
dirs = "5"
dotenv = "0.15"
glob = "0.3"
regex = "1"
reqwest = { version = "0.12", default-features = false, features = ["json"] }
rustyline = "14"
serde = { version = "1", features = ["derive"] }
serde_json = "1"
shellexpand = "3"
tokio = { version = "1", features = ["macros", "rt-multi-thread"] }
walkdir = "2"
