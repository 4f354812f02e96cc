[package]
name = "drift_script_manager"
version = "0.1.0"
edition = "2021"
publish = false

[dependencies]
capitalize = "=0.3.4"
serde = { version = "=1.0.229", features = ["derive"] }
serde_json = "=1.0.154"
zip = { version = "=3.0.0", default-features = false, features = ["deflate"] }
zip-extensions = "=0.8.3"
opener = "=0.7.2"
dirs = "=6.0.0"
git2 = { version = "=0.20.4", default-features = false }
which = "=7.0.3"
include_dir = "=0.7.4"
rfd = { version = "=0.15.4", default-features = false, features = ["xdg-portal", "tokio"] }
imgui = "=0.12.0"
imgui-winit-support = "=0.13.0"
imgui-glow-renderer = "=0.13.0"
glow = "=0.14.2"
winit = "=0.30.13"
glutin = "=0.32.3"
glutin-winit = "=0.5.0"
raw-window-handle = "=0.6.2"
image = { version = "=0.25.10", default-features = false, features = ["png"] }

[dev-dependencies]
tempfile = "3"
