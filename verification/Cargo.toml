[package]
name = "thumbrella"
version = "0.1.0"
edition = "2021"
publish = false

[dependencies]
axum = "=0.8.9"
base64 = "=0.22.1"
clap = { version = "=4.6.7", features = ["derive"] }
ffmpeg-sys-next = "=9.0.1"
flate2 = "=1.1.10"
futures = "=0.3.34"
image = { version = "=0.25.10", default-features = false, features = ["bmp", "ff", "gif", "hdr", "ico", "jpeg", "png", "pnm", "qoi", "tga", "tiff", "webp"] }
infer = "=0.22.0"
jpeg-decoder = { version = "=0.3.2", default-features = false, features = ["platform_independent"] }
jxl-oxide = "=0.12.6"
kamadak-exif = "=0.6.1"
libc = "=0.2.191"
libloading = "=0.8.9"
moka = { version = "=0.12.16", features = ["future", "sync"] }
mozjpeg-rs = "=0.9.2"
parking_lot = "=0.12.5"
reqwest = { version = "=0.12.28", default-features = false, features = ["json", "rustls-tls", "stream"] }
resvg = "=0.49.0"
rusqlite = { version = "=0.32.1", features = ["bundled"] }
serde = { version = "=1.0.229", features = ["derive"] }
serde_json = "=1.0.154"
sha2 = "=0.10.9"
tempfile = "=3.27.0"
time = { version = "=0.3.55", features = ["formatting", "parsing"] }
tokio = { version = "=1.54.1", features = ["full"] }
tower-http = { version = "=0.6.11", features = ["cors"] }
tracing = "=0.1.44"
tracing-subscriber = "=0.3.23"
url = "=2.5.8"
which = "=8.0.6"
