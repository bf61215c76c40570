[package]
name = "koharu"
version = "0.1.0"
edition = "2021"
publish = false

[dependencies]
hypher = "*"
icu_properties = "2"
icu_segmenter = "2"
jieba-rs = "*"
url = "2"
serde = { version = "1", features = ["derive"] }
serde_json = "1"
anyhow = "1"
tracing = "0.1"
libloading = "0.8"
minijinja = "2"
image = { version = "0.25", default-features = false }
imageproc = { version = "0.25", default-features = false }
reqwest-middleware = "0.4"
