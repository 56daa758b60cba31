[package]
name = "xdg-desktop-portal-wlrix"
version = "0.1.0"
edition = "2021"
publish = false

[dependencies]
async-channel = "=2.5.0"
calloop = "=0.14.5"
calloop-wayland-source = "=0.4.1"
drm-fourcc = "=2.2.0"
gbm = { version = "=0.18.0", default-features = false }
libc = "=0.2.191"
pipewire = "=0.10.1"
rustix = { version = "=1.1.6", features = ["fs", "mm"] }
serde = { version = "=1.0.229", features = ["derive"] }
serde_json = "=1.0.154"
toml = "=0.9.12"
tracing = "=0.1.44"
tracing-subscriber = { version = "=0.3.23", features = ["env-filter"] }
wayland-client = "=0.31.15"
wayland-protocols = { version = "=0.32.13", features = ["client", "staging", "unstable"] }
zbus = "=5.19.0"
