[package]
name = "nvm_windows"
version = "0.1.0"
edition = "2021"
publish = false

[dependencies]
semver = "1"
serde = { version = "1", features = ["derive"] }
serde_repr = "0.1"
serde_with = "3"
strum = { version = "*", features = ["derive"] }
clap = { version = "4", features = ["derive"] }
toml = "*"
noyalib = "*"
ureq = { version = "3", default-features = false, features = ["json"] }
anyhow = "1"
log = "0.4"
winreg = "*"
reqwest = { version = "0.12", default-features = false, features = ["stream"] }
tokio = { version = "1", default-features = false }
futures-util = { version = "0.3", default-features = false }
bytes = "1"
indicatif = { version = "*", default-features = false }
