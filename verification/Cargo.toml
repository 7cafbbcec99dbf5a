[package]
name = "ppk_gen"
version = "0.1.0"
edition = "2021"
publish = false

[dependencies]
chrono = "*"
rust_decimal = "*"
zip = { version = "*", default-features = false, features = ["deflate"] }
rusqlite = { version = "*", features = ["bundled"] }
r2d2 = "*"
r2d2_sqlite = "*"
