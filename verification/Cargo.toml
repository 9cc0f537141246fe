[package]
name = "termilyon"
version = "0.1.0"
edition = "2021"
publish = false

[dependencies]
clap = { version = "*", features = ["derive"] }
directories = "*"
gtk4 = "*"
serde = { version = "*", features = ["derive"] }
toml = "*"
vte4 = "*"
