[package]
name = "viewskater"
version = "0.1.0"
edition = "2021"
publish = false

[dependencies]
chrono = { version = "0.4", default-features = false, features = ["clock", "std"] }
clap = { version = "4", default-features = false, features = ["derive", "error-context", "help", "std", "usage"] }
dirs = "6"
egui = "0.31"
image = { version = "0.25", default-features = false, features = ["bmp", "gif", "jpeg", "png", "qoi", "tga", "tiff", "webp"] }
jxl-oxide = { version = "0.12", features = ["image"] }
kamadak-exif = "0.6"
libc = "0.2"
log = "0.4"
mimalloc = "0.1"
natord = "1"
sysinfo = { version = "0.33", default-features = false, features = ["system"] }
serde = { version = "1", features = ["derive"] }
serde_json = "1"
serde_yaml = "0.9"
tracing = "0.1"
tracing-subscriber = { version = "0.3", features = ["env-filter"] }
trash = "5"

[dev-dependencies]
tempfile = "3"
