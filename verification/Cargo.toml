[package]
name = "li"
version = "0.1.0"
edition = "2021"
publish = false

[dependencies]
anyhow = "1"
clap = { version = "4", features = ["derive", "env"] }
clap_complete = "4"
open = "*"
reqwest = { version = "*", default-features = false }
scraper = "*"
serde = { version = "1", features = ["derive"] }
serde_json = "1"
sigpipe = "*"
sqlx = { version = "*", default-features = false, features = ["postgres", "runtime-tokio"] }
tokio = { version = "1", features = ["macros", "rt-multi-thread"] }
url = "2"
