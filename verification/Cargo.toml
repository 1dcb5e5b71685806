[package]
name = "oldgames_parser"
version = "0.1.0"
edition = "2021"
publish = false

[dependencies]
chrono = "0.4"
regex = "1"
select = "0.6"
reqwest = { version = "*", default-features = false, features = ["blocking", "rustls-tls"] }
encoding_rs = "0.8"
encoding_rs_io = "0.1"
serde = { version = "1", features = ["derive"] }
serde_json = "1"
zip = { version = "*", default-features = false, features = ["bzip2"] }
walkdir = "2"
