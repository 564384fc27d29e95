[package]
name = "torii"
version = "1.8.0"
edition = "2021"
publish = false

[dependencies]
dojo-types = "=1.8.0"
starknet = "=0.17.0"
starknet-crypto = "=0.8.1"
sha2 = "=0.10.9"
serde_json = "=1.0.154"
base64 = "=0.21.7"
mime_guess = "=2.0.5"
regex = "=1.13.1"
data-url = "=0.3.2"
httpdate = "=1.0.3"
image = { version = "=0.25.10", default-features = false, features = ["bmp", "dds", "ff", "gif", "hdr", "ico", "jpeg", "png", "pnm", "qoi", "tga", "tiff", "webp"] }
chrono = "=0.4.45"
url = "=2.5.8"
dashmap = "=6.2.1"
slab = "=0.4.12"
crypto-bigint = "=0.5.5"
tikv-jemalloc-ctl = { version = "=0.6.1", features = ["stats"] }
tikv-jemalloc-sys = { version = "0.6.1", features = ["unprefixed_malloc_on_supported_platforms"] }
tokio = { version = "=1.54.1", features = ["rt-multi-thread", "macros", "time", "sync", "net", "signal"] }
hyper = { version = "=0.14.32", features = ["client", "server", "http1", "http2", "tcp", "runtime"] }
clap = { version = "=4.6.7", features = ["derive"] }
libc = "=0.2.191"
sqlx = { version = "=0.8.6", default-features = false, features = ["runtime-tokio", "sqlite"] }
reqwest = { version = "=0.12.28", default-features = false, features = ["rustls-tls"] }
tokio-rustls = { version = "=0.26.6", default-features = false, features = ["ring", "tls12"] }
