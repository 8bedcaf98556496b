[package]
name = "flipclip"
version = "0.1.0"
edition = "2021"
publish = false

[dependencies]
serde_json = "*"
reqwest = { version = "*", features = ["blocking"] }
arboard = "*"
global-hotkey = "*"
enigo = "*"
dirs = "*"
dotenv = "*"
anyhow = "*"
