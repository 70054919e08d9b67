[package]
name = "cw_posts"
version = "0.1.0"
edition = "2021"
publish = false

[dependencies]
cosmwasm-std = "=1.0.1"
cw2 = "=0.14.0"
cw-utils = "=0.14.0"
cw-auth = "=0.1.5"
schemars = "0.8"
serde = { version = "1.0", features = ["derive"] }
thiserror = "1.0"
