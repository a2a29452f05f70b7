[package]
name = "casa"
version = "0.1.0"
edition = "2021"
publish = false

[dependencies]
axum = "0.6"
chrono = { version = "0.4", default-features = false, features = ["std", "clock"] }
minijinja = "1"
pyo3 = { version = "0.20", features = ["extension-module"] }
rand = "0.8"
rusqlite = "0.29"
serde = { version = "1", features = ["derive"] }
tokio = { version = "1", features = ["macros", "rt-multi-thread"] }
