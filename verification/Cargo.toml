[package]
name = "city3d_stac"
version = "0.1.0"
edition = "2021"
publish = false

[dependencies]
regex = "=1.13.1"
sha2 = "=0.10.9"
serde = { version = "=1.0.229", features = ["derive"] }
serde_json = "=1.0.154"
serde_yaml = "=0.9.34"
toml = "=0.8.23"
clap = { version = "=4.6.7", features = ["derive"] }
walkdir = "=2.5.0"
glob = "=0.3.4"
cjseq = "=0.4.1"
quick-xml = "=0.37.5"
flate2 = "=1.1.10"
zip = "=2.6.1"
tempfile = "=3.27.0"
hex = "=0.4.3"
chrono = "=0.4.45"
log = "=0.4.35"
env_logger = "=0.11.11"
proj4rs = { version = "=0.3.0", features = ["crs-definitions"] }
thiserror = "=2.0.21"
url = "=2.5.8"
fcb_core = { version = "*", default-features = false }
