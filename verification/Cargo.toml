[package]
name = "bridge"
version = "0.1.0"
edition = "2021"
publish = false

[dependencies]
rustc-hex = "*"
serde = { version = "*", features = ["derive"] }
toml = "*"
web3 = { version = "*", default-features = false, features = ["http"] }
tokio = { version = "*", features = ["macros", "rt-multi-thread"] }
futures = "*"
ethereum-types = "*"
