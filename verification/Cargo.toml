[package]
name = "schema_forge_acton"
version = "0.1.0"
edition = "2021"
publish = false

[dependencies]
toml = "=0.8.23"
zip = { version = "=2.6.1", default-features = false, features = ["deflate"] }
sha2 = "=0.10.9"
hex = "=0.4.3"
serde = { version = "=1.0.229", features = ["derive"] }
serde_json = "=1.0.154"
cedar-policy = "=4.14.1"
uuid = { version = "=1.29.0", features = ["v4"] }
chrono = { version = "0.4", default-features = false, features = ["std"] }
