[package]
name = "yellowstone-grpc-kafka"
version = "0.1.0"
edition = "2021"
publish = false

[dependencies]
actix-web = "4"
actix-web-codegen = "4"
anyhow = "1"
clap = { version = "4", features = ["derive"] }
const-hex = "1"
futures = "0.3"
prost = "*"
rdkafka = "*"
serde = { version = "1", features = ["derive"] }
serde_json = "1"
sha2 = "0.10"
tokio = { version = "1", features = ["macros", "rt-multi-thread", "signal", "sync", "time"] }
tonic = "*"
tracing = "0.1"
tracing-subscriber = { version = "0.3", features = ["env-filter"] }
yellowstone-grpc-client = "*"
yellowstone-grpc-proto = "*"
