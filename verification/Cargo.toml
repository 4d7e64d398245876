[package]
name = "pdh_collector"
version = "0.1.0"
edition = "2021"
publish = false

[dependencies]
widestring = "0.4"
serde = "1"
serde_derive = "1"
serde_json = "1"
toml = "0.8"
winapi = { version = "0.3", features = ["pdh", "handleapi", "winerror", "winnt", "minwindef"] }
