[package]
name = "masa"
version = "0.1.0"
edition = "2021"
publish = false

[dependencies]
base64 = "=0.22.1"
rand = "=0.8.8"
serde = { version = "=1.0.229", features = ["derive"] }
serde_json = "=1.0.154"
bincode = "=1.3.3"
http = "=1.5.0"
tower-service = "=0.3.3"
dashmap = "6"
once_cell = "1"
rand_distr = "0.4"
tokio = { version = "1", features = ["rt", "time"] }
