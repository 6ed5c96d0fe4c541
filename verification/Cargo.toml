[package]
name = "seiri"
version = "0.1.0"
edition = "2021"
publish = false

[dependencies]
rand = "0.8"
humantime = "2"
chrono = "0.4"
regex = "1"
rusqlite = { version = "*", features = ["functions"] }
r2d2 = "0.8"
r2d2_sqlite = "*"
toml = "*"
serde = { version = "1", features = ["derive"] }
dirs = "*"
app_dirs = "*"
walkdir = "2"
notify = "*"
imagesize = "*"
