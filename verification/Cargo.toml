[package]
name = "inventario_cappellettoshop"
version = "3.2.0"
edition = "2021"
publish = false

[dependencies]
urlencoding = "=2.1.3"
regex = "1"
reqwest = { version = "0.12", default-features = false, features = ["json"] }
tokio = { version = "1", features = ["macros", "rt-multi-thread", "time"] }
serde = { version = "1", features = ["derive"] }
serde_json = "1"
chrono = "0.4"
dotenvy = "0.15"
futures = "0.3"
