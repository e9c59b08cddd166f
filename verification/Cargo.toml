[package]
name = "handlebars_concat"
version = "0.1.0"
edition = "2021"
publish = false

[dependencies]
handlebars = "*"
serde_json = { version = "*", features = ["preserve_order"] }
