[package]
name = "netmon"
version = "0.1.0"
edition = "2021"
publish = false

[dependencies]
chrono = "0.4"
colored = "2"
ctrlc = "3"
if-addrs = "0.13"
sysinfo = "0.29"
