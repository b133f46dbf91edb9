[package]
name = "whatport"
version = "0.1.0"
edition = "2021"
publish = false

[dependencies]
serde_json = "1"
clap = { version = "4", features = ["derive"] }
clap_complete = "4"
netstat2 = "0.11"
sysinfo = "0.33"
