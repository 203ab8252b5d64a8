[package]
name = "unterflow"
version = "0.1.0"
edition = "2021"
publish = false

[dependencies]
byteorder = "1"
bytes = "0.4"
rmpv = "1"
clap = "2"
log = "0.4"
loggerv = "*"
pnet = "*"
futures = "0.1"
tokio-core = "0.1"
tokio-io = "0.1"
tokio-proto = "0.1"
tokio-service = "0.1"
