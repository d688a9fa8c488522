[package]
name = "dashium_core"
version = "0.1.0"
edition = "2021"
publish = false

[dependencies]
sha1 = "*"
serde = { version = "*", features = ["derive"] }
serde_html_form = "*"
serde-deserialize-duplicates = "*"
anyhow = "*"
axum = "*"
chrono = "*"
chrono-humanize = "*"
sqlx = { version = "*", default-features = false, features = ["postgres", "runtime-tokio"] }
tokio = { version = "*", features = ["rt-multi-thread", "macros", "net"] }
