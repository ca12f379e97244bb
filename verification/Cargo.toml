[package]
name = "townhall_auth"
version = "0.1.0"
edition = "2021"
publish = false

[dependencies]
jsonwebtoken = { version = "=11.1.0", default-features = false, features = ["rust_crypto"] }
rust-argon2 = "=3.0.0"
chrono = "=0.4.45"
pxid = "=1.0.0"
serde = { version = "=1.0.229", features = ["derive"] }
thiserror = "=2.0.21"
