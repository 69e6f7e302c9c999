[package]
name = "hammerload"
version = "0.1.0"
edition = "2021"
publish = false

[dependencies]
anyhow = "1"
bytes = "1"
clap = { version = "4", features = ["derive"] }
futures-util = "0.3"
hdrhistogram = { version = "7.5", default-features = false }
http = "1"
indicatif = "0.17"
prost = "0.13"
prost-reflect = { version = "0.14", features = ["serde"] }
prost-types = "0.13"
protox = "0.7"
reqwest = { version = "0.12", default-features = false }
serde_json = "1"
tokio = { version = "1", features = ["macros", "rt-multi-thread", "time", "sync", "net"] }
tokio-tungstenite = "0.26"
tonic = { version = "0.13", default-features = false, features = ["channel"] }
tungstenite = "0.26"
