[package]
name = "dioxus-i18n-json"
version = "0.1.0"
edition = "2021"
publish = false

[dependencies]
icu_locale = "2"
icu_plurals = "2"
dioxus = { version = "0.6", default-features = false, features = ["macro", "signals", "hooks", "html"] }
tokio = { version = "1", features = ["sync", "rt"] }
notify = "6"
tracing = "0.1"
serde_json = "1"
