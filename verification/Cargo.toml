[package]
name = "shell_protector_osc"
version = "0.1.0"
edition = "2021"
publish = false

[dependencies]
sha2 = "0.10"
rosc = "0.10"
serde = { version = "1", features = ["derive"] }
serde_json = "1"
anyhow = "1"
tokio = { version = "1", features = ["rt-multi-thread", "net", "sync", "time", "macros"] }
crossbeam-channel = "0.5"
eframe = { version = "0.29", default-features = false, features = ["glow", "x11", "default_fonts"] }
tray-icon = "0.19"
