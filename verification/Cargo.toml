[package]
name = "ariana"
version = "0.1.0"
edition = "2021"
publish = false

[dependencies]
anyhow = "*"
async-recursion = "*"
clap = { version = "*", features = ["derive"] }
dirs = "*"
fs_extra = "*"
futures-util = "*"
ignore = "*"
indicatif = "*"
rand = "*"
rayon = "*"
reqwest = { version = "*", default-features = false, features = ["json", "blocking"] }
serde = { version = "*", features = ["derive"] }
serde_json = "*"
sha2 = "*"
tokio = { version = "*", features = ["full"] }
tokio-tungstenite = "*"
zip = { version = "*", default-features = false, features = ["deflate"] }
