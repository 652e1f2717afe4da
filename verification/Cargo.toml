[package]
name = "mdbear"
version = "0.1.0"
edition = "2021"
publish = false

[dependencies]
anyhow = "1"
clap = { version = "4", features = ["derive"] }
gray_matter = "*"
notify = "*"
pulldown-cmark = "*"
rust-embed = "*"
serde = { version = "1", features = ["derive"] }
tera = { version = "1", default-features = false }
tokio = { version = "1", features = ["rt-multi-thread", "macros", "time"] }
toml = "*"
warp = { version = "0.3", default-features = false }
webbrowser = "*"
