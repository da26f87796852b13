[package]
name = "acs"
version = "0.1.0"
edition = "2021"
publish = false

[dependencies]
actix-web = { version = "4", default-features = false, features = ["macros", "rustls"] }
anonymous-credit-tokens = "0.2"
bincode = { version = "2", features = ["serde"] }
blake3 = "1"
bytes = "1"
chrono = "0.4"
clap = { version = "4", features = ["derive"] }
console = "0.15"
curve25519-dalek = { version = "4", features = ["serde", "rand_core"] }
dialoguer = "0.11"
dirs = "5"
env_logger = "0.10"
hex = "0.4"
indicatif = "0.17"
log = "0.4"
num_cpus = "1"
rand = "0.8"
rand_chacha = "0.3"
rand_core = { version = "0.6", features = ["getrandom"] }
rcgen = "0.11"
reqwest = { version = "0.11", default-features = false, features = ["rustls-tls"] }
rusqlite = { version = "0.29", features = ["bundled"] }
rustls = "0.20"
rustls-pemfile = "1"
serde = { version = "1", features = ["derive"] }
tempfile = "3"
thiserror = "1"
tokio = { version = "1", features = ["full"] }
toml = "0.8"
