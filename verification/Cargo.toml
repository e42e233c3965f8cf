[package]
name = "connect_four"
version = "0.1.0"
edition = "2021"
publish = false

[dependencies]
bimap = "=0.6.3"
bson = "=2.15.0"
dotenv = "=0.15.0"
futures = "=0.3.34"
mongodb = "=2.8.2"
prost = "=0.11.9"
prost-types = "=0.11.9"
serde = { version = "=1.0.229", features = ["derive"] }
tokio = { version = "=1.54.1", features = ["macros", "rt-multi-thread", "sync"] }
tokio-stream = "=0.1.19"
tonic = "=0.9.2"
tonic-reflection = "=0.9.2"
