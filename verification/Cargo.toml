[package]
name = "hemsd"
version = "0.1.0"
edition = "2021"
publish = false

[dependencies]
anyhow = "1"
axum = { version = "=0.8.9", features = ["ws"] }
clap = { version = "4", features = ["derive", "env"] }
eebus = { version = "=0.10.1", features = ["runtime", "mdns", "ring"] }
getrandom = "=0.4.3"
hex = "=0.4.3"
if-addrs = "=0.15.0"
metering = "=0.24.0"
reqwest = { version = "=0.13.5", features = ["json"] }
rust_decimal = "=1.43.0"
s2-kit = "=0.3.0"
serde = { version = "1", features = ["derive"] }
serde_json = "1"
thiserror = "2"
time = { version = "=0.3.55", features = ["formatting", "macros", "parsing", "serde"] }
tokio = { version = "1", features = ["full"] }
toml = "1"
tracing = "0.1"
tracing-subscriber = { version = "0.3", features = ["env-filter"] }
