[package]
name = "waydroid_tray"
version = "0.1.0"
edition = "2021"
publish = false

[dependencies]
futures-util = "0.3"
ksni = "0.3"
tokio = { version = "1", features = ["macros", "rt", "time", "process", "sync"] }
zbus = { version = "5", default-features = false, features = ["tokio"] }
