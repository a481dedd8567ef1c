[package]
name = "borink"
version = "0.1.0"
edition = "2021"
publish = false

[dependencies]
aes-gcm-siv = "0.11"
rand = "0.8"
rand_chacha = "0.3"
sha2 = "0.10"
opaque-borink = "*"
fixedstr = "*"
rmp-serde = "1"
serde = { version = "1", features = ["derive"] }
base64 = "0.22"
relative-path = "1"
camino = "1"
boxcar = "*"
papaya = "*"
duct = "0.13"
spinoff = "*"
tiny_http = "0.12"
clap = { version = "4", features = ["derive", "env"] }
color-eyre = "0.6"
tracing = "0.1"
tracing-subscriber = { version = "0.3", features = ["env-filter"] }
tracing-error = "0.2"
rusqlite = { version = "*", features = ["bundled"] }
redb = "*"
thiserror = "*"
arrayvec = "0.7"
ouroboros = "*"
reqwest = { version = "*", default-features = false }
tokio = { version = "1", features = ["rt"] }

[dev-dependencies]
serde_json = "1"
