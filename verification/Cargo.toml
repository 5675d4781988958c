[package]
name = "nethint_bpf"
version = "0.1.0"
edition = "2021"
publish = false

[dependencies]
anyhow = "1"
bincode = "1"
libc = "0.2"
redbpf = "2"
shell-words = "1"
structopt = "0.3"
tokio = { version = "1", features = ["macros", "rt", "signal", "time"] }
tracing = "0.1"
tracing-subscriber = { version = "0.3", features = ["env-filter"] }
