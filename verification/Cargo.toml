[package]
name = "confui"
version = "0.1.0"
edition = "2021"
publish = false

[dependencies]
toml_edit = "*"
toml = "*"
cel = "*"
egui = { version = "*", default-features = false }
libc = "*"
serde = { version = "1", features = ["derive"] }
