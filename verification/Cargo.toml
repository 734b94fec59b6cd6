[package]
name = "detector"
version = "0.1.0"
edition = "2021"
publish = false

[dependencies]
walkdir = "=2.5.0"
yara = { version = "=0.32.0", default-features = false, features = ["vendored", "bundled-4_5_5", "ndebug", "module-dotnet", "module-dex", "module-macho", "module-hash"] }
notify = "=4.0.18"
threadpool = "=1.8.1"
log = "=0.4.34"
clap = { version = "=4.6.7", features = ["derive"] }
num_cpus = "=1.17.0"
pretty_env_logger = "=0.5.0"
winrt-notification = "=0.5.1"

[dev-dependencies]
serde_json = "=1.0.151"
