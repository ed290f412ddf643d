[package]
name = "nimbis_storage"
version = "0.1.0"
edition = "2021"
publish = false

[dependencies]
async-trait = "=0.1.92"
bytes = "=1.12.1"
chrono = "=0.4.45"
fastrace = "=0.7.19"
fastrace-opentelemetry = "=0.19.0"
futures = "=0.3.34"
log = "=0.4.35"
opentelemetry = "=0.33.1"
opentelemetry-otlp = { version = "=0.33.1", features = ["grpc-tonic", "http-proto", "http-json"] }
opentelemetry_sdk = "=0.33.1"
slatedb = { version = "=0.18.0", features = ["compaction_filters"] }
thiserror = "=2.0.21"
tokio = { version = "=1.54.1", features = ["sync", "fs", "macros", "rt-multi-thread", "time"] }
url = "=2.5.8"
