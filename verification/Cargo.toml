[package]
name = "tui_utils"
version = "0.1.0"
edition = "2021"
publish = false

[dependencies]
tui = { version = "=0.14.0", default-features = false }
unicode-segmentation = "=1.13.3"
unicode-width = "=0.1.11"
