[package]
name = "feishu_bot"
version = "0.1.0"
edition = "2021"
publish = false

[dependencies]
actix-web = { version = "4", default-features = false, features = ["macros"] }
anyhow = "1"
github-webhook = "*"
octokit-rs = "*"
polodb_core = "4"
reqwest = { version = "0.12", default-features = false, features = ["json", "rustls-tls"] }
serde = { version = "1", features = ["derive"] }
serde_json = { version = "1", features = ["preserve_order"] }
sysinfo = { version = "0.30", default-features = false }
tokio = { version = "1", default-features = false, features = ["sync"] }

[dev-dependencies]
regex = "1"
