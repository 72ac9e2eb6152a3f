[package]
name = "replayd"
version = "0.1.0"
edition = "2021"
publish = false

[dependencies]
url = "=2.5.8"
nucleo-matcher = "=0.3.1"
md5 = "=0.8.1"
chrono = { version = "=0.4.45", default-features = false, features = ["clock", "std"] }
serde_json = "=1.0.154"
image = { version = "=0.25.10", default-features = false, features = ["png"] }
redb = "=4.4.0"
clap = { version = "=4.6.7", features = ["derive"] }
tokio = { version = "=1.54.1", features = ["full"] }
serde = { version = "=1.0.229", features = ["derive"] }
rmp-serde = "=1.3.1"
dirs = "=7.0.0"
reqwest = { version = "=0.12.28", default-features = false, features = ["rustls-tls"] }
relm4 = { version = "=0.11.0", features = ["libadwaita"] }
ashpd = { version = "=0.13.13", default-features = false, features = ["gtk4", "tokio"] }
rodio = { version = "=0.23.0", default-features = false, features = ["playback", "symphonia-mp3"] }
ksni = "=0.3.7"
zbus = { version = "=5.19.0", default-features = false, features = ["tokio"] }
display-info = "=0.5.10"
nix = { version = "=0.31.3", features = ["signal"] }
tracing = "=0.1.44"
tracing-subscriber = { version = "=0.3.23", features = ["env-filter"] }
tracing-error = "=0.2.1"
color-eyre = { version = "=0.6.5", default-features = false }
humansize = "=2.1.3"
futures = "=0.3.34"
