[package]
name = "webxr_graph"
version = "0.1.0"
edition = "2021"
publish = false

[dependencies]
miniz_oxide = "=0.9.1"
base64 = "=0.23.1"
serde = { version = "=1.0.229", features = ["derive"] }
serde_json = "=1.0.154"
pulldown-cmark = { version = "=0.13.6", default-features = false }
regex = "=1.13.1"
sha1 = "=0.11.0"
log = "=0.4.35"
chrono = { version = "=0.4.45", features = ["serde"] }
actix-web = { version = "=4.18.1", default-features = false, features = ["macros", "ws"] }
tokio = { version = "=1.54.1", features = ["full"] }
reqwest = { version = "=0.13.5", default-features = false, features = ["json", "query", "stream"] }
env_logger = "=0.11.11"
actix = "=0.13.5"
actix-web-actors = "=4.3.1"
actix-files = "=0.7.3"
config = { version = "=0.15.27", default-features = false, features = ["toml"] }
futures = "=0.3.34"
rand = "=0.10.3"
dotenv = "=0.15.0"
tokio-tungstenite = "=0.30.0"
