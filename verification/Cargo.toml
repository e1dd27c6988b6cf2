[package]
name = "hyprpilot"
version = "0.1.0"
edition = "2021"
publish = false

[dependencies]
png = "*"
serde_yaml = "*"
serde = { version = "1", features = ["derive"] }
serde_json = "1"
clap = { version = "4", features = ["derive"] }
rustix = { version = "*", features = ["fs", "process"] }
wayland-client = "*"
wayland-protocols-wlr = { version = "*", features = ["client"] }

[dev-dependencies]
tempfile = "*"
