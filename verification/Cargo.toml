[package]
name = "soulseek_rs_tui"
version = "0.1.0"
edition = "2021"
publish = false

[dependencies]
getrandom = "=0.3.4"
serde = { version = "=1.0.229", features = ["derive"] }
serde_json = "=1.0.154"
toml = "=0.8.23"
clap = { version = "=4.6.7", features = ["derive", "env"] }
directories = "=6.0.0"
clap_complete = "=4.6.11"
igd-next = "=0.18.0"
dotenv = "=0.15.0"
