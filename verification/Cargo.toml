[package]
name = "narrate-this"
version = "0.1.0"
edition = "2021"
publish = false

[dependencies]
base64 = "0.22"
sha2 = "0.10"
serde = { version = "1", features = ["derive"] }
serde_json = "1"
reqwest = { version = "0.12", default-features = false, features = ["json", "multipart"] }
tokio = { version = "1", features = ["fs", "process", "macros", "rt"] }
async-trait = "0.1"
futures = "0.3"
tracing = "0.1"
thiserror = "2"
chrono = "0.4"
sqlx = { version = "0.8", default-features = false, features = ["postgres", "runtime-tokio", "chrono"] }
