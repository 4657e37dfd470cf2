[package]
name = "blazar"
version = "0.1.0"
edition = "2021"
publish = false

[dependencies]
serde = { version = "1", features = ["derive"] }
serde_json = "1"
log = "0.4"
reqwest = { version = "*", default-features = false, features = ["blocking", "json"] }
nix = { version = "*", features = ["signal", "process"] }
flexi_logger = "*"
