[package]
name = "mfaws"
version = "0.1.0"
edition = "2021"
publish = false

[dependencies]
anyhow = "1"
async-trait = "0.1"
aws-credential-types = "1"
aws-sdk-sts = { version = "1", default-features = false, features = ["rt-tokio"] }
aws-smithy-types = "1"
clap = { version = "4", features = ["derive", "env"] }
dirs = "5"
log = "0.4"
rust-ini = "0.21"
simplelog = "0.12"
thiserror = "1"
tokio = { version = "1", features = ["macros", "rt-multi-thread"] }
