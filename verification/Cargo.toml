[package]
name = "libspy"
version = "0.1.0"
edition = "2021"
publish = false

[dependencies]
scraper = "*"
serde_json = "*"
url = "*"
readability = "*"
uuid = { version = "*", features = ["v4"] }
ureq = "3"
minijinja = "*"
clap = { version = "4", features = ["derive"] }
serde = { version = "*", features = ["derive"] }
thiserror = "*"
