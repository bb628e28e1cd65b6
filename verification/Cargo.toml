[package]
name = "rv"
version = "0.1.0"
edition = "2021"
publish = false

[dependencies]
hex = "0.4"
sha2 = "0.10"
base64 = "0.22"
regex = "1"
url = "2"
serde = { version = "1", features = ["derive"] }
serde_json = "1"
thiserror = "2"
fs-err = "3"
tokio = { version = "1", features = ["fs", "macros", "rt"] }
async-trait = "0.1"
tracing = "0.1"
bytes = "1"
reqwest = { version = "0.12", default-features = false, features = ["json"] }

[dev-dependencies]
winnow = "0.7"
