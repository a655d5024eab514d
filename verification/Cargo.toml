[package]
name = "crossword_server"
version = "0.1.0"
edition = "2021"
publish = false

[dependencies]
actix = "=0.13.5"
actix-cors = "=0.7.2"
actix-web = "=4.18.1"
actix-web-actors = "=4.3.1"
chrono = "=0.4.45"
diesel = { version = "=2.3.14", features = ["postgres", "r2d2", "serde_json"] }
dotenv = "=0.15.0"
env_logger = "=0.11.11"
futures = "=0.3.34"
itertools = "=0.14.0"
reqwest = "=0.12.28"
scraper = "=0.29.0"
serde = { version = "=1.0.229", features = ["derive"] }
serde_json = { version = "=1.0.154", features = ["preserve_order"] }
uuid = { version = "=1.29.0", features = ["v4"] }
