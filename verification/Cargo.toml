[package]
name = "bibval"
version = "0.1.0"
edition = "2021"
publish = false

[dependencies]
strsim = "*"
async-trait = "*"
biblatex = "*"
clap = { version = "*", features = ["derive"] }
colored = "*"
dirs = "*"
futures = "*"
indicatif = "*"
quick-xml = "*"
reqwest = { version = "*", default-features = false, features = ["json"] }
serde = { version = "*", features = ["derive"] }
serde_json = "*"
thiserror = "*"
tokio = { version = "*", features = ["rt-multi-thread", "macros"] }
tracing-subscriber = { version = "*", features = ["env-filter"] }
urlencoding = "*"
