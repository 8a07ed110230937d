[package]
name = "stylometry"
version = "0.1.0"
edition = "2021"
publish = false

[dependencies]
actix-cors = "=0.7.2"
actix-web = "=4.15.0"
lindera-core = "=0.32.3"
lindera-dictionary = "=0.32.3"
lindera-tokenizer = "=0.32.3"
serde = { version = "=1.0.229", features = ["derive"] }
