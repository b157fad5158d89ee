[package]
name = "rusty_routes_transformer"
version = "0.1.0"
edition = "2021"
publish = false

[dependencies]
bit-vec = "=0.10.1"
regex = "=1.13.1"
chrono = "=0.4.45"
osm-io = "=0.2.2"
log = "=0.4.35"
log4rs = { version = "=1.4.0", default-features = false, features = ["console_appender"] }
clap = { version = "=4.6.7", features = ["derive"] }
anyhow = "=1.0.104"
benchmark-rs = "=0.1.3"
btreemultimap = "=0.1.1"
csv = "=1.4.0"
geo = "=0.33.1"
wkt = "=0.14.0"
serde = { version = "=1.0.229", features = ["derive"] }
georaster = "=0.2.0"
glob = "=0.3.4"
itertools = "=0.15.0"
proj4rs = "=0.3.0"
rstar = "=0.14.0"
rustc-hash = "=2.1.3"
maplit = "=1.0.2"
