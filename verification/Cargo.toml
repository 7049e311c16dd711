[package]
name = "logs_responder"
version = "0.1.0"
edition = "2021"
publish = false

[dependencies]
indexmap = "2"
mime_guess = "2"
futures = "0.3"
axum = "0.6"
aide = { version = "0.11", features = ["axum"] }
schemars = "0.8"
reqwest = { version = "0.11", default-features = false }
