[package]
name = "cast_away"
version = "0.1.0"
edition = "2021"
publish = false

[dependencies]
rust_cast = "*"
serde = { version = "1", features = ["derive"] }
serde_json = "1"
mdns-sd = { version = "*", default-features = false }
infer = "*"
local-ip-address = "*"
rfd = { version = "*", default-features = false }
ffmpeg-sidecar = { version = "2", default-features = false }
winit = { version = "0.30", default-features = false, features = ["rwh_06", "x11"] }
wry = { version = "*", default-features = false }
actix-web = { version = "4", default-features = false }
actix-files = "*"
tokio = { version = "1", features = ["full"] }
tokio-util = { version = "*", features = ["codec"] }
futures = "*"
rustls = "*"
