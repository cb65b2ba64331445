[package]
name = "retrospective_crate_version_tagging"
version = "0.1.0"
edition = "2021"
publish = false

[dependencies]
anyhow = "=1.0.104"
chrono = { version = "=0.4.45", features = ["serde"] }
clap = { version = "=4.6.7", features = ["derive"] }
crates_io_api = "=0.12.0"
flate2 = "=1.1.10"
gix = { version = "=0.90.0", default-features = false, features = ["sha1"] }
indicatif = "=0.18.6"
parse-changelog = { version = "=0.6.17", default-features = false }
reqwest = { version = "=0.13.5", features = ["blocking"] }
scopeguard = "=1.2.0"
serde = { version = "=1.0.229", features = ["derive"] }
serde_json = "=1.0.154"
serde_yml = "=0.0.13"
tar = "=0.4.46"
tracing = "=0.1.44"
tracing-indicatif = "=0.3.14"
tracing-subscriber = { version = "=0.3.23", features = ["env-filter"] }
