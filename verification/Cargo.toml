[package]
name = "spotify_importer"
version = "0.1.0"
edition = "2021"
publish = false

[dependencies]
anyhow = "1"
async-trait = "0.1"
csv = "1"
json_dotpath = "1"
log = "0.4"
pretty_env_logger = "0.4"
rspotify = "0.10"
serde = { version = "1", features = ["derive"] }
serde_json = "1"
structopt = "0.3"
tokio = { version = "0.2", features = ["macros", "rt-threaded"] }
