[package]
name = "plex_m3u"
version = "0.1.0"
edition = "2021"
publish = false

[dependencies]
clap = { version = "4", features = ["derive"] }
colog = "1"
log = "0.4"
quick-xml = { version = "*", features = ["serialize"] }
reqwest = { version = "0.12", features = ["blocking"] }
serde = { version = "1", features = ["derive"] }
