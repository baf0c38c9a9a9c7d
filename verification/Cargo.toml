[package]
name = "ocr_service"
version = "0.1.0"
edition = "2021"
publish = false

[dependencies]
actix-files = "0.6"
actix-multipart = { version = "0.7", default-features = false }
actix-web = { version = "4", default-features = false, features = ["macros"] }
futures-util = "0.3"
parking_lot = "0.12"
serde = { version = "1", features = ["derive"] }
tokio = { version = "1", features = ["rt"] }
uuid = { version = "1", features = ["v4"] }
