[package]
name = "gototerm"
version = "0.1.0"
edition = "2021"
publish = false

[dependencies]
unicode-width = "=0.2.3"
syntect = { version = "=5.3.0", default-features = false, features = ["default-fancy"] }
pulldown-cmark = { version = "=0.13.6", default-features = false }
image = { version = "=0.25.10", default-features = false, features = ["png", "jpeg", "gif", "webp", "bmp"] }
alacritty_terminal = "=0.25.1"
vte = { version = "=0.15.0", features = ["ansi"] }
portable-pty = "=0.9.0"
notify = "=8.2.1"
arboard = { version = "=3.7.0", default-features = false }
winit = { version = "=0.29.15", features = ["rwh_05"] }
glium = { version = "=0.34.0", default-features = false, features = ["glutin_backend"] }
glutin = "=0.31.3"
glutin-winit = "=0.4.2"
raw-window-handle = "=0.5.2"
freetype-rs = "=0.38.0"
config = { version = "=0.15.27", default-features = false, features = ["toml"] }
serde = { version = "=1.0.229", features = ["derive"] }
lazy_static = "=1.5.1"
log = "=0.4.35"
env_logger = { version = "=0.11.11", default-features = false }
