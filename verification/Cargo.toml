[package]
name = "spicy_garden"
version = "0.1.0"
edition = "2021"
publish = false

[dependencies]
fs_extra = "*"
reqwest = { version = "*", default-features = false, features = ["blocking"] }
serde = { version = "*", features = ["derive"] }
toml = "*"
