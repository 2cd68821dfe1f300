[package]
name = "apkg_deck"
version = "0.1.0"
edition = "2021"
publish = false

[dependencies]
md5 = "0.7"
serde_json = "1"
zip = { version = "*", default-features = false, features = ["deflate"] }
zstd = "*"
serde = { version = "1", features = ["derive"] }
rusqlite = { version = "*", features = ["bundled"] }
lazy_static = "1"
chrono = "0.4"
ctor = "*"
