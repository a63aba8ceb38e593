[package]
name = "cincinnati"
version = "0.1.0"
edition = "2021"
publish = false

[dependencies]
actix-files = { version = "0.6", default-features = false }
actix-web = { version = "4", default-features = false, features = ["macros"] }
lazy_static = "1"
log = "0.4"
opentelemetry = "*"
parking_lot = "0.12"
prometheus = { version = "0.13", default-features = false }
serde = { version = "1", features = ["derive"] }
serde_derive = "1"
serde_yaml = "0.9"
smart-default = "*"
url = "2"
