[package]
name = "pathfinder"
version = "0.1.0"
edition = "2021"
publish = false

[dependencies]
anyhow = "*"
apollo-parser = "*"
async-trait = "*"
axum = "*"
clap = { version = "*", features = ["derive", "env"] }
config = "*"
rdkafka = "*"
redis = { version = "*", features = ["tokio-comp", "connection-manager"] }
reqwest = { version = "*", default-features = false, features = ["json"] }
serde = { version = "*", features = ["derive"] }
serde_json = "*"
tokio = { version = "*", features = ["full"] }
tracing = "*"
tracing-subscriber = { version = "*", features = ["env-filter", "json"] }

[dev-dependencies]
bytes = "*"
prost = "*"
