[package]
name = "embedder"
version = "0.1.0"
edition = "2021"
publish = false

[dependencies]
anyhow = "=1.0.104"
async-trait = "=0.1.92"
axum = { version = "=0.6.20", default-features = false, features = ["json"] }
llm = "=0.1.1"
ndarray = "=0.17.2"
ort = { version = "=2.0.0-rc.15", default-features = false, features = ["ndarray", "load-dynamic"] }
qdrant-client = { version = "=1.20.0", default-features = false }
scc = "=2.4.0"
serde = { version = "=1.0.229", features = ["derive"] }
sqlx = { version = "=0.7.4", default-features = false, features = ["sqlite", "runtime-tokio"] }
tokenizers = { version = "=0.13.4", default-features = false, features = ["onig"] }
tokio = { version = "=1.54.1", features = ["sync", "rt", "rt-multi-thread"] }
tracing = "=0.1.44"
