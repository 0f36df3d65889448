[package]
name = "hotprices_au_rs"
version = "0.1.0"
edition = "2021"
publish = false

[dependencies]
anyhow = "1"
clap = { version = "4", features = ["derive"] }
cookie_store = "0.21"
env_logger = "0.11"
flate2 = "1"
log = "0.4"
nonempty = "*"
regex = "1"
scraper = "*"
serde = { version = "1", features = ["derive"] }
serde_json = "1"
strum = { version = "*", features = ["derive"] }
thiserror = "1"
time = { version = "0.3", features = ["macros", "parsing", "formatting"] }
ureq = { version = "2", features = ["json", "cookies"] }
