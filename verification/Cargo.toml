[package]
name = "voxplace"
version = "0.1.0"
edition = "2021"
publish = false

[dependencies]
flate2 = "1"
chrono = "*"
actix-web = "4"
actix-ws = "*"
actix-cors = "*"
futures-util = "*"
rand = "*"
rusqlite = { version = "*", features = ["bundled"] }
serde = "*"
serde_derive = "*"
bcrypt = "*"
jsonwebtoken = "*"
thiserror = "*"
