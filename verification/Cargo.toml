[package]
name = "panel_detector"
version = "0.1.0"
edition = "2021"
publish = false

[dependencies]
cocoa = "*"
objc = "*"
objc2-app-kit = "*"
