[package]
name = "limusic"
version = "0.1.0"
edition = "2021"
publish = false

[dependencies]
regex = "1"
urlencoding = "2"
sha1 = "0.10"
hex = "0.4"
base64 = "0.22"
any_ascii = "*"
pinyin = "*"
wana_kana = "*"
lindera = { version = "0.32", features = ["ipadic"] }
serde = { version = "1", features = ["derive"] }
serde_json = "1"
rand = "0.8"
thiserror = "1"
tracing = "0.1"
tokio = { version = "1", features = ["rt-multi-thread", "macros", "time", "sync"] }
reqwest = { version = "0.12", default-features = false, features = ["json", "rustls-tls"] }
rusqlite = { version = "0.31", features = ["bundled"] }
