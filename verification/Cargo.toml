[package]
name = "blog_server"
version = "0.1.0"
edition = "2021"
publish = false

[dependencies]
actix-web = { version = "4", default-features = false, features = ["macros", "compress-gzip", "compress-brotli"] }
actix-files = "0.6"
chrono = { version = "0.4", features = ["serde"] }
pulldown-cmark = "0.12"
serde = { version = "1", features = ["derive"] }
tera = "1"
toml = "0.8"
walkdir = "2"
