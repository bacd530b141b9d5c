[package]
name = "stock_tracer"
version = "0.1.0"
edition = "2021"
publish = false

[dependencies]
actix = "0.13"
chrono = "0.4"
clap = { version = "4", features = ["derive"] }
futures = "0.3"
yahoo_finance_api = "*"
