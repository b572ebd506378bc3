[package]
name = "rotate-iam-keys"
version = "1.0.0"
edition = "2021"
publish = false

[dependencies]
clap = "2"
dirs-next = "2"
env_logger = "0.9"
log = "0.4"
rust-ini = "0.17"
rusoto_core = "0.48"
rusoto_credential = "0.48"
rusoto_iam = "0.48"
tokio = { version = "1", features = ["macros", "rt-multi-thread", "time"] }
