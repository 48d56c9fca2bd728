[package]
name = "lanta"
version = "0.1.0"
edition = "2021"
publish = false

[dependencies]
xcb = { version = "0.9", features = ["randr"] }
xcb-util = { version = "0.3", features = ["ewmh", "icccm", "keysyms"] }
x11 = "2"
