[package]
name = "recruitment"
version = "0.1.0"
edition = "2021"
publish = false

[dependencies]
rand = "*"
serde_json = "*"

[dependencies.image]
version = "*"
default-features = false
features = ["jpeg"]
