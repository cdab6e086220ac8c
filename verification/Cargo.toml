[package]
name = "baret"
version = "0.1.0"
edition = "2021"
publish = false

[dependencies]
evalexpr = "=11.3.1"
shlex = "=1.3.0"
glob = "=0.3.4"
serde = { version = "1", features = ["derive"] }
serde_yaml = "0.9"
serde_with = "3"
structopt = "0.3"
tokio = { version = "1", features = ["rt-multi-thread", "process", "macros", "time"] }
futures = "0.3"
indicatif = "0.17"
