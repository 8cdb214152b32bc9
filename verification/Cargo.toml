[package]
name = "soulseek_rs"
version = "0.1.0"
edition = "2021"
publish = false

[dependencies]
unicode-normalization = "0.1"
sha2 = "0.10"
url = "2"
miniz_oxide = "0.8"
image = { version = "0.25", default-features = false, features = ["jpeg", "png", "gif", "bmp", "tiff", "webp"] }
anyhow = "1"
backon = "1"
chrono = { version = "0.4", default-features = false, features = ["clock", "std"] }
clap = { version = "4", features = ["derive", "env"] }
csv = "1"
dialoguer = { version = "*", default-features = false }
governor = "*"
indicatif = "*"
lofty = "0.22"
musicbrainz_rs = { version = "*", default-features = false, features = ["async", "rustls"] }
reqwest = { version = "0.12", default-features = false, features = ["json", "rustls-tls"] }
serde = { version = "1", features = ["derive"] }
socket2 = { version = "0.6", features = ["all"] }
symphonia = { version = "0.5", features = ["all"] }
thiserror = "2"
tokio = { version = "1", features = ["full"] }
tokio-util = "0.7"
walkdir = "2"
which = "*"
