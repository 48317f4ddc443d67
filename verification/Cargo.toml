[package]
name = "zcash_voting"
version = "0.1.0"
edition = "2021"
publish = false

[dependencies]
blake2b_simd = "=1.0.5"
ff = "=0.13.1"
pasta_curves = "=0.5.2"
serde_json = "=1.0.154"
sqlx = { version = "=0.8.6", default-features = false, features = ["runtime-tokio", "sqlite"] }
thiserror = "=2.0.21"
voting-circuits = "=0.9.0"
