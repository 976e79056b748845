[package]
name = "census"
version = "0.1.0"
edition = "2021"
publish = false

[dependencies]
chrono = { version = "=0.4.45", features = ["serde"] }
url = "=2.5.8"
maud = "=0.27.0"
lightningcss = { version = "=1.0.0-alpha.72", default-features = false }
serde_urlencoded = "=0.7.1"
serde = { version = "=1.0.229", features = ["derive"] }
actix-web = { version = "=4.18.1", default-features = false, features = ["macros"] }
tokio = { version = "=1.54.1", features = ["fs", "rt", "macros"] }
sqlx = { version = "=0.8.6", default-features = false, features = ["postgres", "runtime-tokio", "macros", "migrate", "chrono", "rust_decimal"] }
rust_decimal = "=1.43.0"
