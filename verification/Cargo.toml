[package]
name = "ws_com_framework"
version = "1.0.0"
edition = "2021"
publish = false
