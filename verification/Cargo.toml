[package]
name = "rainbow-ant"
version = "0.1.0"
edition = "2021"
publish = false

[dependencies]
iced = { version = "=0.14.0", default-features = false, features = ["tiny-skia", "crisp", "web-colors", "thread-pool", "linux-theme-detection", "x11", "wayland", "canvas", "advanced", "tokio"] }
iced_aw = { version = "=0.14.1", default-features = false, features = ["number_input", "color_picker"] }
