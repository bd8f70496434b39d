[package]
name = "link_graph"
version = "0.1.0"
edition = "2021"
publish = false

[dependencies]
ahash = "0.8"
askama = { version = "0.12", default-features = false }
bincode = "1.3"
bytes = "1"
csv = "1"
flate2 = "1"
h2 = "0.4"
rouille = "3"
serde = { version = "1", features = ["derive"] }
tokio = { version = "1", features = ["rt-multi-thread", "net"] }
url = "2"
