[package]
name = "monster_scraper"
version = "0.1.0"
edition = "2021"
publish = false

[dependencies]
scraper = "*"
clap = { version = "4", features = ["derive"] }
dotenv = "0.15"
reqwest = "*"
sqlx = { version = "*", default-features = false, features = ["postgres", "runtime-tokio"] }
tokio = { version = "1", features = ["macros", "rt-multi-thread"] }
