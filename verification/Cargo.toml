[package]
name = "libmoonlight"
version = "0.1.0"
edition = "2021"
publish = false

[dependencies]
pathdiff = "*"
flume = "*"
flate2 = "*"
tar = "*"
serde = { version = "*", features = ["derive"] }
serde_json = "*"
nix = { version = "*", features = ["user"] }
reqwest = { version = "*", default-features = false, features = ["blocking", "rustls-tls"] }
