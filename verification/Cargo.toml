[package]
name = "fcitx5_niri_panel"
version = "0.1.0"
edition = "2021"
publish = false

[dependencies]
anyhow = "1"
cosmic-text = "0.12"
futures-util = "0.3"
serde = "1"
serde_json = "1"
smithay-client-toolkit = { version = "0.19", default-features = false }
tokio = { version = "1", features = ["rt-multi-thread", "macros", "signal"] }
zbus = "4"
