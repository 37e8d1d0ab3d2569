[package]
name = "challenge"
version = "0.1.0"
edition = "2021"
publish = false

[dependencies]
borsh = { version = "=1.8.1", features = ["derive"] }
num-derive = "=0.5.1"
num-traits = "=0.2.19"
shank = "=0.4.9"
solana-program = "=5.1.0"
solana-system-interface = { version = "=3.3.0", features = ["bincode"] }
spl-associated-token-account = { version = "=8.0.0", features = ["no-entrypoint"] }
spl-token = { version = "=9.0.0", features = ["no-entrypoint"] }
thiserror = "=2.0.21"
