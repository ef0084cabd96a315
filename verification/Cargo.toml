[package]
name = "comet"
version = "0.1.0"
edition = "2021"
publish = false

[dependencies]
chrono = "0.4"
clap = "3"
cli-table = "*"
hex = "0.4"
question = "*"
serialport = "*"
termion = "*"

[dev-dependencies]
serde_json = "1"
