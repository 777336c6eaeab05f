[package]
name = "ore-pool"
version = "0.1.0"
edition = "2021"
publish = false

[dependencies]
actix-web = { version = "=4.18.1", default-features = false }
base64 = "=0.22.1"
bytemuck = { version = "=1.25.2", features = ["derive"] }
deadpool-postgres = "0.14"
drillx = "=2.1.0"
log = "=0.4.34"
ore-api = "2"
ore-utils = "2"
serde = { version = "=1.0.229", features = ["derive"] }
solana-program = "=1.18.26"
solana-sdk = "=1.18.26"
spl-associated-token-account = { version = "2", features = ["no-entrypoint"] }
spl-token = { version = "=4.0.3", features = ["no-entrypoint"] }
tokio = { version = "=1.54.1", features = ["macros", "rt-multi-thread", "sync", "time"] }
