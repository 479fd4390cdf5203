[package]
name = "mssql_tds"
version = "0.1.0"
edition = "2021"
publish = false

[dependencies]
arrow-array = "*"
arrow-schema = "*"
async-trait = "0.1"
bigdecimal = "0.4"
byteorder = "1"
encoding_rs = "0.8"
hostname = "*"
pretty-hex = "0.4"
socket2 = "0.5"
tokio = { version = "1", features = ["io-util", "net", "rt", "sync", "time", "macros"] }
tracing = "0.1"
uuid = "1"
