[package]
name = "portkiller"
version = "0.1.0"
edition = "2021"
publish = false

[dependencies]
nix = { version = "*", features = ["signal", "process", "time"] }
png = "*"
serde = { version = "*", features = ["derive"] }
serde_json = "*"
ureq = { version = "*", default-features = false }
anyhow = "*"
log = "*"
