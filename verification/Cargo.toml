[package]
name = "ark_serde_compat"
version = "0.1.0"
edition = "2021"
publish = false

[dependencies]
ark-bn254 = "=0.6.0"
ark-bls12-381 = "=0.6.0"
ark-ec = "=0.6.0"
ark-ff = "=0.6.0"
ark-serialize = "=0.6.0"
taceo-ark-babyjubjub = "=0.6.0"
serde = { version = "1", features = ["derive"] }
serde_json = "1"
clap = { version = "4", features = ["derive", "env"] }
eyre = "0.6"
thiserror = "2"
tracing = "0.1"
tracing-subscriber = { version = "0.3", features = ["env-filter"] }

[dev-dependencies]
rand = "0.8"
