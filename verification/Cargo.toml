[package]
name = "coverdrop"
version = "0.1.0"
edition = "2021"
publish = false

[dependencies]
anyhow = "=1.0.104"
async-trait = "=0.1.92"
axum = { version = "=0.8.9", features = ["macros"] }
base64 = "=0.22.1"
chrono = "=0.4.45"
clap = { version = "=4.6.7", features = ["derive", "env"] }
convert_case = "=0.6.0"
hex = "=0.4.3"
http = "=1.5.0"
log = "=0.4.35"
metrics = "=0.24.6"
rand = "=0.8.8"
reqwest = { version = "=0.12.28", default-features = false, features = ["json"] }
serde = { version = "=1.0.229", features = ["derive"] }
serde_json = "=1.0.154"
sqlx = { version = "=0.8.6", default-features = false, features = ["postgres", "runtime-tokio", "chrono", "json", "migrate"] }
strum = { version = "=0.26.3", features = ["derive"] }
thiserror = "=1.0.69"
tokio = { version = "=1.54.1", features = ["full"] }
tower-http = { version = "=0.6.11", features = ["trace"] }
tracing = "=0.1.44"
