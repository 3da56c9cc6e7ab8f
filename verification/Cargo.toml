[package]
name = "dmacs"
version = "0.1.0"
edition = "2021"
publish = false

[dependencies]
unicode-width = "*"
fuzzy-matcher = "*"
arboard = { version = "*", default-features = false }
chrono = "*"
sha2 = "*"
pancurses = "*"
libc = "*"
ctrlc = "*"
dirs = "*"
serde = { version = "*", features = ["derive"] }
serde_json = "*"
toml = "*"
thiserror = "*"
log = "*"
simplelog = "*"

[dev-dependencies]
tempfile = "*"
