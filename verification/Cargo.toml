[package]
name = "readygate"
version = "0.1.0"
edition = "2021"
publish = false

[dependencies]
regex = "1"
memchr = "2"
tokio = { version = "1", features = ["rt-multi-thread", "macros", "process", "net", "time", "sync", "io-util", "io-std"] }
reqwest = { version = "0.12", default-features = false }
futures = "0.3"
structopt = "0.3"
tracing = "0.1"
tracing-subscriber = { version = "0.3", features = ["env-filter", "fmt"] }
