[package]
name = "bevy_editor"
version = "0.1.0"
edition = "2021"
publish = false

[dependencies]
fuzzy-matcher = "=0.3.7"
uuid = { version = "=1.29.0", features = ["v4", "serde"] }
nonmax = "=0.5.5"
disqualified = "=1.1.0"
chrono = "=0.4.45"
serde = { version = "=1.0.229", features = ["derive"] }
ron = "=0.12.3"
thiserror = "=2.0.21"
bytemuck = "=1.25.2"
platform-dirs = "=0.3.0"
async-fs = "=2.2.0"
lucide-icons = "=1.66.0"
egui = { version = "=0.37.0", default-features = false }
