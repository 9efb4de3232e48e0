[package]
name = "compositor_slint"
version = "0.1.0"
edition = "2021"
publish = false

[dependencies]
anyhow = "=1.0.104"
chrono = "=0.4.45"
image = { version = "=0.25.10", default-features = false, features = ["png", "jpeg"] }
serde_json = "=1.0.154"
smithay = { version = "=0.7.0", default-features = false, features = ["wayland_frontend", "desktop"] }
tokio = { version = "=1.54.1", features = ["rt", "sync", "time"] }
tracing = "=0.1.44"
zbus = { version = "=5.19.0", default-features = false, features = ["tokio"] }
