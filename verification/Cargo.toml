[package]
name = "lengua"
version = "0.1.0"
edition = "2021"
publish = false

[dependencies]
gray_matter = "*"
serde_yaml = "*"
minijinja = "*"
similar = "*"
owo-colors = "*"
serde = { version = "1", features = ["derive"] }
serde_json = "1"
toml = "*"
clap = { version = "4", features = ["derive"] }
anyhow = "1"
anstream = "*"
thiserror = "*"
tempfile = "3"
gix = { version = "*", features = ["blocking-network-client"] }
gix-path = "*"
