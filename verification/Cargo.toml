[package]
name = "cftail"
version = "0.1.0"
edition = "2021"
publish = false

[dependencies]
notify-rust = "*"
aws-config = "*"
aws-sdk-cloudformation = "*"
aws-smithy-types-convert = { version = "*", features = ["convert-chrono"] }
chrono = "*"
humantime = "*"
structopt = "*"
term_size = "*"
term-table = "*"
termcolor = "*"
tokio = { version = "*", features = ["macros", "rt-multi-thread", "time", "sync"] }
futures = "*"
