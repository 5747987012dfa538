[package]
name = "pipeline_engine"
version = "0.1.0"
edition = "2021"
publish = false

[dependencies]
base64 = "*"
bytes = "1"
chrono = { version = "0.4", default-features = false, features = ["clock"] }
clap = "2"
config = "*"
csv = "1"
fern = "*"
jsonpath = "=0.1.1"
kstring = "=2.0.2"
liquid = "=0.26.11"
log = "0.4"
mime = "*"
regex = "1"
reqwest = { version = "*", default-features = false, features = ["blocking"] }
serde = { version = "1", features = ["derive"] }
serde_json = "1"
signal-hook = "*"
structopt = "0.3"
tokio = { version = "1", features = ["rt-multi-thread", "sync", "time"] }
uuid = { version = "1", features = ["v4"] }
