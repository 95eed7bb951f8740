[package]
name = "s2n_quic_sync"
version = "0.1.0"
edition = "2021"
publish = false

[dependencies]
tokio = { version = "=1.54.1", features = ["time", "rt", "macros", "sync", "net"] }
futures = "=0.3.34"
hdrhistogram = { version = "=7.6.0", default-features = false }
structopt = "=0.3.26"
