[package]
name = "p2p-gossip"
version = "0.1.0"
edition = "2021"
publish = false

[dependencies]
backoff = { version = "0.4", features = ["tokio"] }
bincode = "1"
bs58 = "0.5"
clap = { version = "4", features = ["derive"] }
dns-lookup = "2"
futures = "0.3"
quinn = "0.10"
rand = "0.8"
rand_pcg = "0.3"
rustls = { version = "0.21", features = ["dangerous_configuration"] }
rustls-pemfile = "1"
thiserror = "1"
tokio = { version = "1", features = ["macros", "rt-multi-thread", "signal", "sync", "time"] }
