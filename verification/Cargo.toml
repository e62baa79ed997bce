[package]
name = "twitch_reader"
version = "0.1.0"
edition = "2021"
publish = false

[dependencies]
regex = "=1.13.1"
trie-rs = "=0.4.2"
chrono = "=0.4.45"
tokio = { version = "=1.54.1", features = ["full"] }
twitch-irc = "=6.1.3"
twitch_api = { version = "=0.8.0", features = ["helix", "client", "reqwest", "twitch_oauth2"] }
twitch_oauth2 = { version = "=0.17.1", features = ["reqwest"] }
reqwest = { version = "=0.13.5", features = ["json"] }
ratatui = "=0.30.2"
crossterm = "=0.29.0"
axum = { version = "=0.8.9", features = ["ws"] }
tiny_http = "=0.12.0"
open = "=5.4.5"
url = "=2.5.8"
dotenvy = "=0.15.7"
serde = { version = "=1.0.229", features = ["derive"] }
serde_json = "=1.0.154"
toml = "=1.1.8"
