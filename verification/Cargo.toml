[package]
name = "lemoncraft"
version = "0.1.0"
edition = "2021"
publish = false

[dependencies]
vek = "*"
hashbrown = "*"
serde = { version = "1", features = ["derive"] }
tracing = "*"
num = "*"
iced_core = "*"
conrod_core = "*"
assets_manager = "*"

[dev-dependencies]
regex = "*"
