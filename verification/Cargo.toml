[package]
name = "wirewhale"
version = "0.1.0"
edition = "2021"
publish = false

[dependencies]
anyhow = "1"
async-std = { version = "1", features = ["attributes"] }
byteorder = "1"
chrono = "0.4"
clap = { version = "4", features = ["derive"] }
crossterm = { version = "0.25", features = ["event-stream"] }
futures-util = "0.3"
thiserror = "1"
tui = "0.19"
