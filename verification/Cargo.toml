[package]
name = "thpl"
version = "0.1.0"
edition = "2021"
publish = false

[dependencies]
bme280 = "0.2"
chrono = "0.4"
dotenv = "0.15"
ltr-559 = "0.1"
reqwest = { version = "0.11", default-features = false, features = ["blocking"] }
rppal = { version = "0.13", features = ["hal"] }
sys-info = "0.9"
