[package]
name = "purgedb"
version = "0.1.0"
edition = "2021"
publish = false

[dependencies]
hex_color = { version = "=3.0.0", features = ["serde"] }
rand = "0.8"
serde = { version = "1", features = ["derive"] }
rusqlite = { version = "0.37", features = ["bundled", "backup"] }
ron = "0.10"
chrono = "0.4"
anyhow = "1"
tracing = "0.1"
tracing-subscriber = { version = "0.3", features = ["env-filter", "fmt"] }
tracing-appender = "0.2"
egui = "0.31"
egui_extras = "0.31"
eframe = { version = "0.31", default-features = false, features = ["glow", "x11", "default_fonts", "persistence"] }
nucleo = "0.5"
