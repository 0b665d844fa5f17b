[package]
name = "rs_backtester"
version = "0.1.0"
edition = "2021"
publish = false

[dependencies]
chrono = "0.4"
csv = "1"
plotters = "0.3"
tokio-test = "0.4"
yahoo_finance_api = "*"
