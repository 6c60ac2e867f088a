[package]
name = "dkn_compute_launcher"
version = "0.1.0"
edition = "2021"
publish = false

[dependencies]
clap = { version = "4.5", features = ["derive"] }
colored = "3.0"
dotenvy = "0.15"
enum-iterator = "2.1"
env_logger = "0.11"
eyre = "0.6"
futures = "0.3"
hex = "0.4"
homedir = "0.3"
indicatif = "0.17"
inquire = { version = "0.7", features = ["editor"] }
libsecp256k1 = "0.7"
log = "0.4"
ollama-rs = { version = "0.2", features = ["stream"] }
prettytable-rs = "0.10"
reqwest = { version = "0.12", features = ["json"] }
rlimit = "0.10"
self_update = "0.42"
serde = { version = "1", features = ["derive"] }
serde_json = "1"
sha3 = "0.10"
tokio = { version = "1", features = ["full"] }
tokio-util = "0.7"
urlencoding = "2.1"
which = "7"
