[package]
name = "geospatial"
version = "0.1.0"
edition = "2021"
publish = false

[dependencies]
uuid = { version = "=1.27.0", features = ["v4", "serde"] }
actix-web = "=4.15.0"
tokio = { version = "=1.53.2", features = ["rt-multi-thread", "macros", "time", "sync"] }
deadpool-postgres = "=0.14.2"
tokio-postgres = { version = "=0.7.18", features = ["with-serde_json-1", "with-uuid-1"] }
postgres-types = { version = "=0.2.14", features = ["with-serde_json-1"] }
redis = { version = "=1.7.1", features = ["tokio-comp"] }
serde = { version = "=1.0.229", features = ["derive"] }
serde_json = "=1.0.151"
geojson = "=1.0.0"
futures = "=0.3.34"
dotenv = "=0.15.0"
env_logger = "=0.11.11"
log = "=0.4.34"
anyhow = "=1.0.104"
thiserror = "=2.0.21"
lazy_static = "=1.5.1"
prometheus = "=0.14.0"
