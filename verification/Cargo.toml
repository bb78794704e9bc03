[package]
name = "quaerit_machina"
version = "0.1.0"
edition = "2021"
publish = false

[dependencies]
oxigraph = { version = "0.2", default-features = false }
rio_api = "0.5"
rio_turtle = "0.5"
serde = { version = "1", features = ["derive"] }
async-trait = "0.1"
futures = "0.3"
tokio = { version = "1", features = ["full"] }
structopt = "0.3"
ipfs-api = "0.10"
