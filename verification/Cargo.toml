[package]
name = "oxytools"
version = "0.1.0"
edition = "2021"
publish = false

[dependencies]
regex = "1"
pulldown-cmark = { version = "0.12", default-features = false, features = ["html"] }
html2md = "0.2"
sha2 = "0.10"
which = "7"
quick-xml = "0.37"
lopdf = { version = "0.38", default-features = false }
zip = { version = "2", default-features = false, features = ["deflate"] }
chrono = "0.4"
serde = { version = "1", features = ["derive"] }
serde_json = "1"
toml = "0.8"
dotenvy = "0.15"
reqwest = { version = "0.12", default-features = false, features = ["blocking", "json", "rustls-tls"] }
