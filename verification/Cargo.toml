[package]
name = "bokken"
version = "0.1.0"
edition = "2021"
publish = false

[dependencies]
base64 = "0.13"
bs58 = "0.4"
zstd = "0.12"
solana-program = "1.18"
tokio = { version = "1", features = ["net", "rt", "rt-multi-thread", "sync", "io-util", "macros", "time"] }
