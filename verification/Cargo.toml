[package]
name = "drbd_reactor"
version = "0.1.0"
edition = "2021"
publish = false

[dependencies]
shell-words = "1"
anyhow = "1"
crossbeam-channel = "0.5"
libc = "0.2"
log = "0.4"
fern = "0.6"
serde = { version = "1", features = ["derive"] }
serde_json = "1"
toml = "*"
signal-hook = "0.3"
structopt = "0.3"
atty = "0.2"
