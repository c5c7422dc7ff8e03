[package]
name = "aethaum_core"
version = "0.1.0"
edition = "2021"
publish = false

[dependencies]
anyhow = "=1.0.104"
itertools = "=0.15.0"
one-or-many = "=0.4.4"
prettyplease = "=0.3.0"
proc-macro2 = "=1.0.107"
quote = "=1.0.47"
serde = { version = "=1.0.229", features = ["derive"] }
smart-string = { version = "=0.3.0", features = ["serde"] }
syn = { version = "=3.0.6", features = ["full"] }
thiserror = "=2.0.21"
toml = "=1.1.7"
