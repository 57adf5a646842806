[package]
name = "same_alerter"
version = "0.1.0"
edition = "2021"
publish = false

[dependencies]
anyhow = "*"
atty = "*"
byteorder = "*"
clap = { version = "*", features = ["derive"] }
log = "*"
sameold = "*"
simple_logger = "*"
strum = "*"
tokio = { version = "*", features = ["macros", "rt-multi-thread", "time"] }
