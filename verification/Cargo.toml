[package]
name = "build_driver"
version = "0.1.0"
edition = "2021"
publish = false

[dependencies]
nix = { version = "*", features = ["user", "signal"] }
oci-distribution = { version = "*", default-features = false, features = ["rustls-tls"] }
serde_json = "*"
tempfile = "*"
