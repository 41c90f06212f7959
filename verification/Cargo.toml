[package]
name = "webapp"
version = "0.1.0"
edition = "2021"
publish = false

[dependencies]
async-trait = "0.1"
custom_error = "1"
serde = { version = "1", features = ["derive"] }
serde_json = "1"
tokio = { version = "1", features = ["full"] }
tokio-postgres = "0.7"
warp = "0.3"

[dev-dependencies]
serde_json = { version = "1", features = ["preserve_order"] }
