[package]
name = "synf"
version = "0.1.0"
edition = "2021"
publish = false

[dependencies]
argh = "0.1"
color-eyre = "0.6"
crossbeam-channel = "0.5"
ctrlc = "3"
eyre = "0.6"
inquire = "*"
notify-debouncer-full = "*"
serde = { version = "1", features = ["derive"] }
serde_json = "1"
toml = "*"
