[package]
name = "vaktisalah"
version = "0.1.0"
edition = "2021"
publish = false

[dependencies]
async-channel = "2"
chrono = { version = "0.4", features = ["unstable-locales"] }
formatx = "0.2"
gettext-rs = "0.7"
gtk4 = { version = "0.9", features = ["v4_12"] }
ksni = { version = "0.3", features = ["blocking"] }
libadwaita = { version = "0.7", features = ["v1_6"] }
reqwest = { version = "0.12", default-features = false, features = ["json"] }
rodio = { version = "0.20", default-features = false, features = ["vorbis"] }
serde = { version = "1", features = ["derive"] }
serde_json = "1"
tokio = { version = "1", features = ["rt-multi-thread"] }
