[package]
name = "zipread"
version = "0.1.0"
edition = "2021"
publish = false

[dependencies]
crc32fast = "*"
tokio = { version = "*", features = ["io-util", "rt"] }
async-compression = { version = "*", features = ["deflate", "tokio"] }
async_io_utilities = "*"
