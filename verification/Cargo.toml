[package]
name = "librarian"
version = "0.1.0"
edition = "2021"
publish = false

[dependencies]
rc-zip = "*"
rc-zip-sync = "*"
flate2 = "*"
tar = "*"
url = "*"
reqwest = { version = "*", default-features = false, features = ["blocking"] }
