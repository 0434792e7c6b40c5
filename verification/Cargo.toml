[package]
name = "bhiera"
version = "0.1.0"
edition = "2021"
publish = false

[dependencies]
anyhow = "1"
image = { version = "0.24", default-features = false }
plotters = { version = "0.3", default-features = false, features = ["bitmap_backend"] }
rfd = { version = "0.15", default-features = false, features = ["xdg-portal", "tokio"] }
slint = { version = "1", default-features = false, features = ["std", "compat-1-2"] }
