[package]
name = "yourcontrols"
version = "0.1.0"
edition = "2021"
publish = false

[dependencies]
anyhow = "1"
base64 = "0.13"
bimap = "0.6"
byteorder = "1"
crossbeam-channel = "0.5"
dns-lookup = "1"
dotenv = "0.15"
igd = { version = "0.12", default-features = false }
laminar = "0.5"
log = "0.4"
rand = "0.8"
rmp-serde = "1"
semver = "1"
serde = { version = "1", features = ["derive"] }
simplelog = "0.12"
socket2 = "0.4"
spin_sleep = "1"
thiserror = "1"
zstd = "0.12"
