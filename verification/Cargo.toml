[package]
name = "lssbi"
version = "0.0.0"
edition = "2021"
publish = false

[dependencies]
clap = { version = "4", features = ["derive"] }
gettext-rs = "*"
jep106 = "*"
sbi-spec = "*"
serde = { version = "1", features = ["derive"] }
serde_json = "1"
unicode-width = "*"
