[package]
name = "llc_updater"
version = "0.1.0"
edition = "2021"
publish = false

[dependencies]
url = { version = "=2.5.8", features = ["serde"] }
keyvalues-parser = "=0.2.4"
sha2 = "=0.10.9"
hex = "=0.4.3"
chrono = { version = "=0.4.45", features = ["serde"] }
serde = { version = "=1.0.229", features = ["derive"] }
serde_json = "=1.0.154"
thiserror = "=2.0.21"
log = "=0.4.35"
env_logger = "=0.11.11"
dirs = "=7.0.0"
clap = { version = "=4.6.7", features = ["derive"] }
inquire = "=0.9.4"
indicatif = "=0.18.6"
tokio = { version = "=1.54.1", features = ["macros", "rt-multi-thread"] }
futures-util = "=0.3.34"
reqwest = { version = "=0.12.28", default-features = false, features = ["rustls-tls", "stream"] }
octocrab = "=0.46.0"
rustls = { version = "=0.23.46", default-features = false, features = ["ring", "std", "tls12", "logging"] }
zip = { version = "=9.2.2", default-features = false, features = ["deflate"] }
sevenz-rust = "=0.6.1"
fs_extra = "=1.3.0"
winreg = "=0.56.0"
