[package]
name = "adif"
version = "0.1.0"
edition = "2021"
publish = false

[dependencies]
anyhow = "1"
async-graphql = "6.0"
async-graphql-axum = "6.0"
axum = "0.6"
bitvec = "1"
diesel = { version = "2.1", features = ["sqlite", "r2d2", "time"] }
lazy_static = "1"
log = "0.4"
pretty_env_logger = "0.5"
quick-xml = { version = "0.31", features = ["serialize"] }
regex = "1"
reqwest = "0.11"
serde = { version = "1", features = ["derive"] }
thiserror = "1"
time = { version = "0.3", features = ["serde", "macros", "parsing", "formatting"] }
tokio = { version = "1", features = ["full"] }
tokio-stream = { version = "0.1", features = ["sync"] }
tower-http = { version = "0.4", features = ["cors"] }
