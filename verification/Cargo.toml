[package]
name = "shiftboard"
version = "0.1.0"
edition = "2021"
publish = false

[dependencies]
askama = "*"
axum = "*"
chrono = "0.4"
chrono-tz = "*"
http = "*"
maplit = "*"
once_cell = "*"
rusqlite = { version = "*", features = ["bundled"] }
serde = { version = "*", features = ["derive"] }
tokio = { version = "*", features = ["rt-multi-thread", "macros", "net"] }
toml = "*"
tower-http = { version = "*", features = ["fs", "normalize-path"] }
tower-layer = "*"
tracing-subscriber = { version = "*", features = ["env-filter"] }

[dev-dependencies]
regex = "*"
