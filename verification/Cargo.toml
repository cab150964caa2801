[package]
name = "short"
version = "0.1.0"
edition = "2021"
publish = false

[dependencies]
regex = "1"
heck = "0.3"
versions = "1"
anyhow = "1"
clap = "2.33"
colored = "2"
crossterm = "0.17"
dirs = "2"
env_logger = "0.7"
filetime = "0.2"
fs_extra = "1.2"
git2 = { version = "0.13", default-features = false }
log = "0.4"
open = "1"
prettytable-rs = { version = "0.8", default-features = false }
reqwest = { version = "0.10", default-features = false, features = ["blocking"] }
serde = { version = "1", features = ["derive"] }
serde_json = "1"
serde_yaml = "0.8"
strum = "0.18"
strum_macros = "0.18"
tempdir = "0.3"
term-table = "1.3"
thiserror = "1"
