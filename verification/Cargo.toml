[package]
name = "awsctx"
version = "0.1.0"
edition = "2021"
publish = false

[dependencies]
anyhow = "=1.0.104"
config = { version = "=0.15.27", default-features = false, features = ["ini", "preserve_order"] }
dirs = "=7.0.0"
handlebars = "=6.4.4"
once_cell = "=1.21.4"
rust-ini = "=0.21.3"
serde_json = "=1.0.154"
simplelog = "=0.12.2"
skim = "=5.8.0"
thiserror = "=2.0.21"
