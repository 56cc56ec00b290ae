[package]
name = "mailroom"
version = "0.1.0"
edition = "2021"
publish = false

[dependencies]
argon2 = { version = "0.5", features = ["std"] }
async-trait = "0.1"
bytes = "1"
chrono = "0.4"
clap = "4"
crossterm = "*"
email_address = "0.2"
fern = "*"
log = "0.4"
ratatui = "*"
sea-orm = { version = "*", default-features = false, features = ["macros"] }
sea-orm-migration = { version = "*", default-features = false }
serde = { version = "1", features = ["derive"] }
sudo = "*"
tokio = { version = "1", features = ["net", "io-util", "rt-multi-thread", "macros"] }
toml = "*"
trust-dns-resolver = "*"
