[package]
name = "quizlet_anki_export"
version = "0.1.0"
edition = "2021"
publish = false

[dependencies]
scraper = "*"
genanki-rs = "*"
reqwest = { version = "*", default-features = false }
tokio = { version = "*", features = ["macros", "rt-multi-thread"] }
color-eyre = "*"
