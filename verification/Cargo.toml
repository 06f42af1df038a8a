[package]
name = "igd_next"
version = "0.1.0"
edition = "2021"
publish = false

[dependencies]
xmltree = "0.10"
rand = { version = "0.8", features = ["small_rng"] }
log = "0.4"
attohttpc = { version = "0.24", default-features = false }
hyper = { version = "0.14", features = ["client", "http1", "http2", "runtime", "tcp"] }
tokio = { version = "1", features = ["net", "time"] }
futures = "0.3"
async-std = "1"
reqwless = { version = "*", default-features = false }
embedded-io-async = "*"
embedded-nal-async = "*"
embedded-io-adapters = { version = "*", features = ["futures-03"] }
once_cell = "1"
const-random = "0.1"
