[package]
name = "themalingadingdong"
version = "0.1.0"
edition = "2021"
publish = false

[dependencies]
palette = "0.7"
csscolorparser = "0.7"
tinted-builder = "*"
serde = { version = "1", features = ["derive"] }
serde_json = "1"
serde_yaml = "0.9"
toml = "*"
figment = { version = "0.10", features = ["toml"] }
clap = { version = "4", features = ["derive"] }
clap_complete = "4"
color-eyre = "0.6"
tracing = "0.1"
tracing-subscriber = { version = "0.3", features = ["env-filter"] }
tracing-appender = "0.2"
argmin = "*"
cobyla = "*"
rayon = "1"
enterpolation = "*"
float-cmp = "*"
ratatui = "*"
tuirealm = "*"
crossterm-actions = "*"
syntect = { version = "5", default-features = false, features = ["default-fancy"] }
syntect-tui = "*"
regex = "1"
