[package]
name = "starplayer"
version = "0.1.0"
edition = "2021"
publish = false

[dependencies]
rusqlite = "*"
uuid = { version = "1", features = ["v4"] }
urlencoding = "2"
walkdir = "2"
notify = "*"
tiny_http = "*"
portpicker = "*"
serde = { version = "1", features = ["derive"] }
