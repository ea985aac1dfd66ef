[package]
name = "resonate"
version = "0.1.0"
edition = "2021"
publish = false

[dependencies]
rand = "0.9"
rodio = "0.19"
rusqlite = { version = "*", features = ["bundled"] }
directories = "*"
thirtyfour_sync = "*"
