[package]
name = "embed_pipeline"
version = "0.1.0"
edition = "2021"
publish = false

[dependencies]
anyhow = "*"
mimalloc = "*"
mnist = { version = "=0.6.0", features = ["download"] }
ndarray = "=0.16.1"
pacmap = "=0.2.6"
plotly = "=0.14.1"
tracing = "*"
tracing-subscriber = "*"
