[package]
name = "rdf-diff-store"
version = "0.1.0"
edition = "2021"
publish = false

[dependencies]
actix-rt = "2"
actix-web = { version = "4", default-features = false, features = ["macros"] }
async-lock = "2"
async-trait = "0.1"
base64 = "0.21"
futures-util = { version = "0.3", default-features = false }
git2 = { version = "0.18", default-features = false }
mime = "0.3"
moka = { version = "0.12", features = ["sync"] }
oxigraph = { version = "*", default-features = false }
prometheus = { version = "0.13", default-features = false }
reqwest = { version = "0.11", default-features = false, features = ["json"] }
serde = { version = "1", features = ["derive"] }
serde_json = "1"
thiserror = "1"
tokio = { version = "1", features = ["fs", "io-util", "rt", "macros"] }
tracing = "0.1"
tracing-subscriber = { version = "0.3", features = ["json"] }
