[package]
name = "bbg"
version = "0.1.0"
edition = "2021"
publish = false

[dependencies]
chrono = "0.4"
dotenvy = "0.15"
image = { version = "0.25", default-features = false, features = ["png", "jpeg", "gif", "webp", "bmp"] }
moka = { version = "0.12", features = ["future"] }
nanohtml2text = "*"
plotters = { version = "0.3", default-features = false, features = ["bitmap_backend", "line_series", "full_palette"] }
poise = "0.6"
rand = "0.9"
reqwest = { version = "0.12", features = ["json", "blocking"] }
rosu-v2 = "*"
serde = { version = "1", features = ["derive"] }
tetrio-api = "*"
tokio = { version = "1", features = ["full"] }
tracing = "0.1"
