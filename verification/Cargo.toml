[package]
name = "hisiflash"
version = "0.1.0"
edition = "2021"
publish = false

[dependencies]
byteorder = "1"
serialport = { version = "4", default-features = false }
clap = { version = "4", features = ["derive", "env"] }
clap_complete = "4"
console = "0.15"
dialoguer = "0.11"
directories = "5"
env_logger = "0.11"
log = "0.4"
serde = { version = "1", features = ["derive"] }
serde_json = "1"
toml = "0.8"
ctrlc = "3"
crossterm = "0.28"
indicatif = "0.17"
sys-locale = "0.3"
