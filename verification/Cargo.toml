[package]
name = "fondy_checkout"
version = "0.1.0"
edition = "2021"
publish = false

[dependencies]
sha1 = "0.10"
url = "2"
uuid = { version = "1", features = ["v4"] }
warp = "0.3"
reqwest = { version = "0.11", features = ["json"] }
tokio = { version = "1", features = ["full"] }
serde = { version = "1", features = ["derive"] }
serde_json = "1"
handlebars = "4"
tracing = "0.1"
tracing-subscriber = { version = "0.3", features = ["env-filter"] }
dotenv = "0.15"
human-panic = "1"
quick-error = "2"
tap = "1"
reqwest_inspect_json = "*"
