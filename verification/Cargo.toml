[package]
name = "vod2pod-rss"
version = "0.1.0"
edition = "2021"
publish = false

[dependencies]
actix-web = { version = "=4.18.1", default-features = false, features = ["macros"] }
async-trait = "0.1"
bytes = "1"
cached = { version = "=0.56.0", features = ["async", "redis_tokio"] }
chrono = "=0.4.45"
eyre = "0.6"
feed-rs = "=2.4.0"
futures = "0.3"
google-youtube3 = "=7.0.0"
hex = "=0.4.3"
http-body-util = "0.1"
hyper-util = { version = "0.1", features = ["client", "client-legacy", "http1", "tokio"] }
image = { version = "=0.25.10", default-features = false, features = ["bmp", "dds", "exr", "ff", "gif", "hdr", "ico", "jpeg", "png", "pnm", "qoi", "tga", "tiff", "webp"] }
iso8601-duration = "=0.2.0"
log = "0.4"
redis = { version = "=0.32.7", features = ["tokio-comp"] }
regex = "=1.13.1"
reqwest = { version = "=0.12.28", default-features = false, features = ["rustls-tls"] }
rss = "=2.0.12"
serde = { version = "1", features = ["derive"] }
serde_json = "=1.0.154"
sha2 = "=0.10.9"
tokio = { version = "1", features = ["fs", "macros", "process", "rt-multi-thread"] }
url = { version = "=2.5.8", features = ["serde"] }
