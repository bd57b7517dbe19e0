[package]
name = "cargo-rbext"
version = "0.1.0"
edition = "2021"
publish = false

[dependencies]
case = "1"
toml = "0.5"
serde = { version = "1", features = ["derive"] }
