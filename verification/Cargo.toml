[package]
name = "s3_tui"
version = "0.1.0"
edition = "2021"
publish = false

[dependencies]
anyhow = "1"
aws-config = { version = "1", features = ["behavior-version-latest"] }
aws-sdk-s3 = "1"
bytesize = "*"
chrono = "0.4"
clap = { version = "4", features = ["derive", "env"] }
crossterm = "*"
ratatui = "*"
ratatui-themekit = "*"
rusqlite = { version = "*", features = ["bundled"] }
serde = { version = "1", features = ["derive"] }
thiserror = "*"
tokio = { version = "1", features = ["full"] }
toml = "*"
