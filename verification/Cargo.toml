[package]
name = "sapling"
version = "0.1.0"
edition = "2021"
publish = false

[dependencies]
chrono = "=0.4.45"
comrak = { version = "=0.16.0", default-features = false }
rss-gen = "=0.0.13"
serde = { version = "=1.0.229", features = ["derive"] }
serde_yaml = "=0.9.34"
tera = "=1.20.1"
lightningcss = { version = "=1.0.0-alpha.65", default-features = false, features = ["bundler", "grid"] }
parcel_selectors = "=0.28.1"
walkdir = "=2.5.0"
log = "=0.4.35"
env_logger = "=0.10.2"
clap = { version = "=4.6.7", features = ["derive"] }
tokio = { version = "=1.54.1", features = ["full"] }
axum = "=0.6.20"
tower = { version = "=0.4.13", features = ["util"] }
tower-http = { version = "=0.4.4", features = ["fs", "trace"] }
tower-livereload = "=0.8.2"
notify = "=6.1.1"
ctrlc = "=3.5.2"
