[package]
name = "searcher_cli"
version = "0.1.0"
edition = "2021"
publish = false

[dependencies]
clap = { version = "=4.6.7", default-features = false, features = ["std", "help", "usage", "error-context", "derive", "env"] }
env_logger = { version = "=0.10.2", default-features = false, features = ["humantime"] }
futures-util = { version = "0.3", default-features = false, features = ["std"] }
log = "0.4"
serum_dex = { version = "=0.5.4", features = ["no-entrypoint"] }
solana-sdk = "=1.18.26"
spl-memo = { version = "=4.0.4", features = ["no-entrypoint"] }
spl-token = { version = "=4.0.3", features = ["no-entrypoint"] }
tokio = { version = "=1.54.1", features = ["macros", "rt-multi-thread", "time"] }
tonic = { version = "=0.10.2", features = ["transport"] }
