[package]
name = "fault_tracker"
version = "0.1.0"
edition = "2021"
publish = false

[dependencies]
sha2 = "*"
sysinfo = "*"
tracing = "*"
anyhow = "*"
