[package]
name = "chatter"
version = "0.1.0"
edition = "2021"
publish = false

[dependencies]
anyhow = "1.0"
bcrypt = "0.19"
chrono = { version = "0.4", default-features = false, features = ["clock", "std"] }
clap = { version = "4", features = ["derive"] }
color-eyre = { version = "0.6", default-features = false }
ctrlc = "3.4"
eframe = { version = "0.35", default-features = false, features = ["glow", "x11"] }
egui = { version = "0.35", default-features = false }
env_logger = { version = "0.11", default-features = false }
futures-channel = "0.3"
futures-util = { version = "0.3", default-features = false, features = ["sink", "std"] }
log = "0.4"
rusqlite = { version = "0.40", default-features = false, features = ["bundled"] }
serde = { version = "1.0", features = ["derive"] }
serde_json = "1.0"
tokio = { version = "1", features = ["macros", "net", "rt-multi-thread", "signal", "sync", "time"] }
tokio-tungstenite = "0.29"
tungstenite = "0.29"
zeroize = "1.8"
