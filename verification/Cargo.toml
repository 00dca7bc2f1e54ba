[package]
name = "matrix-screensaver"
version = "0.1.0"
edition = "2021"
publish = false

[dependencies]
anyhow = "1"
async-trait = "0.1"
chrono = "0.4"
futures-util = "0.3"
rand = "0.8"
sdl2 = { version = "0.37", features = ["ttf"] }
serde = { version = "1", features = ["derive"] }
tokio = { version = "1", features = ["full"] }
toml = "0.8"
wayland-client = "0.31"
wayland-protocols = { version = "0.32", features = ["client", "staging"] }
x11rb = { version = "0.13", features = ["screensaver"] }
zbus = { version = "4", default-features = false, features = ["tokio"] }
