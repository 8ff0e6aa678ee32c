[package]
name = "mjai_reviewer_service"
version = "0.1.0"
edition = "2021"
publish = false

[dependencies]
sanitize-filename = "*"
actix-web = "4"
actix-files = "*"
actix-multipart = "*"
futures-util = "0.3"
serde = { version = "1", features = ["derive"] }
