[package]
name = "vscode_recents"
version = "0.1.0"
edition = "2021"
publish = false

[dependencies]
serde_json = "1"
shellexpand = "*"
serde = { version = "1", features = ["derive"] }
ron = "*"
abi_stable = "*"
anyrun-plugin = "*"
