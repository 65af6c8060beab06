[package]
name = "trascrivi"
version = "0.1.0"
edition = "2021"
publish = false

[dependencies]
serde = { version = "*", features = ["derive"] }
serde_json = "*"
uuid = { version = "*", features = ["v4"] }
chrono = "*"
dirs = "*"
anyhow = "*"
tokio = { version = "*", features = ["rt-multi-thread", "macros", "sync", "time", "fs"] }
reqwest = { version = "*", default-features = false, features = ["json"] }
printpdf = "*"
