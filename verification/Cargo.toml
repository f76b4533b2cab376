[package]
name = "better_im"
version = "0.1.0"
edition = "2021"
publish = false

[dependencies]
anyhow = "1"
base64 = "0.22"
chrono = "0.4"
clap = { version = "4", features = ["derive"] }
dirs = "*"
imessage-database = "*"
notify = "*"
regex = "1"
rusqlite = { version = "*", features = ["bundled"] }
serde = { version = "1", features = ["derive"] }
objc2 = "0.6"
objc2-foundation = "0.3"
objc2-contacts = "0.3"
block2 = "0.6"
dispatch2 = "0.3"
