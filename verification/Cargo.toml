[package]
name = "mds"
version = "0.1.0"
edition = "2021"
publish = false

[dependencies]
rand = "0.8"
delete = "*"
question = "*"
termion = "*"
which = "*"
tokio = { version = "1", features = ["rt"] }
reqwest = { version = "*", default-features = false, features = ["rustls-tls"] }
