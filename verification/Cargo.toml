[package]
name = "loknext"
version = "0.1.0"
edition = "2021"
publish = false

[dependencies]
magic-crypt = "3"
rand = "0.8"
arboard = { version = "*", default-features = false }
colored = "*"
dotenv = "*"
