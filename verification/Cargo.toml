[package]
name = "easy_rs"
version = "0.1.0"
edition = "2021"
publish = false

[dependencies]
crossbeam-queue = "=0.3.14"
num-decimal = { version = "=0.2.5", default-features = false, features = ["num-v04"] }
orderbook-rs = "=0.15.3"
pricelevel = "=0.10.2"
apca = "=0.31.0"
arc-swap = "=1.9.3"
chrono = "=0.4.45"
dotenvy = "=0.15.7"
futures = "=0.3.34"
parking_lot = "=0.12.5"
ratatui = "=0.30.2"
ta = "=0.5.0"
tokio = { version = "=1.54.1", features = ["rt-multi-thread", "macros", "signal", "time"] }
tracing = "=0.1.44"
tracing-subscriber = { version = "=0.3.23", features = ["env-filter", "fmt"] }
