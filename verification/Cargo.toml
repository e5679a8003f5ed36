[package]
name = "scoob"
version = "0.1.0"
edition = "2021"
publish = false

[dependencies]
colored = "2"
data-encoding = "2"
dotenv = "0.15"
edit = "0.1"
rusoto_core = "0.48"
rusoto_secretsmanager = "0.48"
serde = { version = "1", features = ["derive"] }
serde_yaml = "0.8"
sodiumoxide = "0.2"
structopt = "0.3"
tokio = { version = "1", features = ["rt-multi-thread"] }
