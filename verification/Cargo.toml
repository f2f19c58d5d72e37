[package]
name = "lefthk"
version = "0.1.0"
edition = "2021"
publish = false

[dependencies]
ron = "0.8"
serde = { version = "1", features = ["derive"] }
tokio = { version = "1", features = ["full"] }
xdg = "2"
nix = "0.26"
signal-hook = "0.3"
mio = { version = "0.8", features = ["os-poll", "os-ext"] }
evdev = { version = "0.12", features = ["tokio"] }
udev = "0.7"
tracing = "0.1"
tracing-subscriber = { version = "0.3", features = ["env-filter"] }
clap = { version = "3", features = ["cargo"] }
thiserror = "1"
