[package]
name = "netmon"
version = "0.1.0"
edition = "2021"
publish = false

[dependencies]
anyhow = "1"
bincode = "=1.3.3"
brotli = "=9.0.0"
bytes = "1"
chrono = "0.4"
clap = { version = "4", features = ["derive", "env"] }
clickhouse = { version = "=0.15.2", features = ["inserter", "uuid"] }
hickory-resolver = "=0.26.3"
ipnet = { version = "=2.12.2", features = ["serde"] }
md5 = "=0.7.0"
pnet_datalink = { version = "=0.35.0", features = ["pcap"] }
prost = "=0.14.4"
rdkafka = "=0.39.0"
serde = { version = "1", features = ["derive"] }
simd-json = "=0.18.1"
tokio = { version = "1", features = ["macros", "rt-multi-thread", "fs", "io-util", "sync"] }
tracing = "0.1"
tracing-subscriber = "0.3"
uuid = { version = "=1.27.0", features = ["v7"] }
zip = "=8.6.0"
