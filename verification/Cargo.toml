[package]
name = "erbium_dhcp"
version = "0.1.0"
edition = "2021"
publish = false

[dependencies]
nix = "0.19"
rand = "0.7"
rusqlite = { version = "0.24", features = ["bundled"] }
tokio = { version = "1", features = ["net", "rt", "sync"] }
