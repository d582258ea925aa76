[package]
name = "sys_collector"
version = "0.1.0"
edition = "2021"
publish = false

[dependencies]
anyhow = "*"
chrono = "*"
clap = { version = "*", features = ["derive"] }
crossbeam-channel = "*"
ctrlc = "*"
handsome_logger = "*"
humansize = "*"
log = "*"
open = "*"
plotly = "*"
regex = "*"
serde = { version = "*", features = ["derive"] }
sysinfo = "*"
time = "*"
tokio = { version = "*", features = ["rt", "macros", "time", "rt-multi-thread"] }
