[package]
name = "tide_panic"
version = "0.1.0"
edition = "2021"
publish = false

[dependencies]
futures = "*"
http = "*"
bs58 = "*"
slog = "*"
slog-async = "*"
slog-term = "*"
uuid = { version = "*", features = ["v4"] }
