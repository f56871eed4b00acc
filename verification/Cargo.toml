[package]
name = "asez2_shared_db"
version = "0.1.0"
edition = "2021"
publish = false

[dependencies]
ahash = "0.8"
time = { version = "0.3", features = ["parsing", "formatting", "macros"] }
uuid = { version = "1", features = ["v4"] }
bzip2 = "*"
serde = { version = "1", features = ["derive"] }
serde_json = "1"
sqlx = { version = "0.8", default-features = false, features = ["runtime-tokio", "postgres", "time", "uuid", "json"] }
tokio = { version = "1", features = ["rt-multi-thread", "macros", "time"] }
async-trait = "0.1"
thiserror = "1"
futures = "0.3"
rayon = "1"
reqwest = { version = "0.12", default-features = false, features = ["json"] }
url = "2"
tracing = "0.1"
