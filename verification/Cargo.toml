[package]
name = "ledger"
version = "0.1.0"
edition = "2021"
publish = false

[dependencies]
chrono = "0.4"
crossterm = "0.18"
ropey = "1"
unicode-width = "0.1"
uuid = { version = "1", features = ["v4"] }
jsondata = "*"
llrb-index = "*"
git2 = { version = "*", default-features = false }
dirs = "*"
log = "0.4"
simplelog = "0.10"
structopt = "0.3"
