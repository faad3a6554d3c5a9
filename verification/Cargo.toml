[package]
name = "havokmud"
version = "0.1.0"
edition = "2021"
publish = false

[dependencies]
ansi_term = "=0.12.1"
bytes = "=1.12.1"
config = { version = "=0.14.1", default-features = false, features = ["toml"] }
directories = "=5.0.1"
hickory-resolver = "=0.24.4"
lazy_static = "=1.5.1"
log = "=0.4.34"
minijinja = "=2.24.0"
serde = { version = "=1.0.229", features = ["derive"] }
serde_derive = "=1.0.229"
simplelog = "=0.12.2"
time = "=0.3.55"
tokio = { version = "=1.54.1", features = ["full"] }

[dev-dependencies]
fancy-regex = "=0.13.0"
