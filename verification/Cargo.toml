[package]
name = "serie"
version = "0.1.0"
edition = "2021"
publish = false

[dependencies]
base64 = "=0.22.1"
chrono = "=0.4.45"
semver = "=1.0.28"
fuzzy-matcher = "=0.3.7"
sha1 = "=0.10.7"
ratatui = "=0.30.2"
clap = { version = "=4.6.7", features = ["derive"] }
serde = { version = "=1.0.229", features = ["derive"] }
toml = "=1.1.8"
xdg = "=3.0.0"
console = "=0.16.6"
arboard = "=3.7.0"
image = { version = "=0.25.10", default-features = false, features = ["png"] }
rustc-hash = "=2.1.3"
tui-input = "*"
tui-tree-widget = "*"
ansi-to-tui = "*"
laurier = "*"
color-eyre = "*"
smart-default = "*"
umbra = "*"
