[package]
name = "mibar"
version = "0.1.0"
edition = "2021"
publish = false

[dependencies]
tiny-skia = "0.11"
resize = "0.8"
rgb = "0.8"
ahash = "0.8"
smallvec = "1"
tokio = { version = "1", features = ["full"] }
smithay-client-toolkit = { version = "0.18", default-features = false, features = ["calloop"] }
cosmic-text = "0.11"
bumpalo = "3"
slotmap = "1"
zbus = { version = "4", default-features = false, features = ["tokio"] }
libpulse-binding = "2"
once_cell = "1"
lazy_static = "1"
nohash = "0.2"
resvg = "0.38"
