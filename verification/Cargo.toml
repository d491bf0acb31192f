[package]
name = "podbringer"
version = "0.1.0"
edition = "2021"
publish = false

[dependencies]
chrono = "*"
mime-db = "*"
rss = "*"
reqwest = { version = "*", default-features = false, features = ["blocking", "json"] }
serde = { version = "*", features = ["derive"] }
url = "*"
youtube_dl = "*"
ytextract = "*"
futures = "*"
