[package]
name = "rambit"
version = "0.1.0"
edition = "2021"
publish = false

[dependencies]
deunicode = "=1.6.2"
smallvec = "=1.16.4"
ulid = "=1.2.1"
tokio = { version = "=1.54.1", features = ["fs", "io-util", "sync", "rt", "macros", "time"] }
http = "=1.5.0"
serde_json = "=1.0.154"
object_store = { version = "=0.12.5", features = ["aws"] }
axum-core = "=0.5.6"
bytes = "1"
mime = "=0.3.17"
redis = { version = "0.27", features = ["tokio-comp"] }
serde = { version = "1", features = ["derive"] }
names = { version = "0.14", default-features = false }
