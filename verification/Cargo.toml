[package]
name = "ef_core"
version = "0.1.0"
edition = "2021"
publish = false

[dependencies]
sha2 = "=0.10.9"
uuid = { version = "=1.29.0", features = ["v4"] }
time = { version = "=0.3.55", features = ["formatting"] }
unicode-normalization = "=0.1.26"
dunce = "=1.0.5"
which = "=8.0.6"
ttf-parser = "=0.25.1"
toml = "=0.8.23"
serde = { version = "=1.0.229", features = ["derive"] }
os_pipe = "=1.2.3"
crossbeam-channel = "=0.5.17"
anyhow = "=1.0.104"
directories = "=6.0.0"
tempfile = "=3.27.0"
ureq = "=3.5.1"
zip = { version = "=9.2.2", default-features = false, features = ["deflate-flate2"] }
zstd = "=0.14.3"
tar = "=0.4.46"
flate2 = "1"
image = { version = "0.25", default-features = false, features = ["png"] }
