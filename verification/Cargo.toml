[package]
name = "epub_reader"
version = "0.1.0"
edition = "2021"
publish = false

[dependencies]
crc32fast = "1"
epub = "*"
sqlx = { version = "0.8", default-features = false, features = ["sqlite", "runtime-tokio"] }
tokio = { version = "1", default-features = false, features = ["rt"] }

[dev-dependencies]
zip = { version = "*", default-features = false }
