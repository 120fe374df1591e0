[package]
name = "read_selected_text"
version = "0.1.0"
edition = "2021"
publish = false

[dependencies]
reqwest = { version = "0.12", default-features = false, features = ["blocking", "json", "rustls-tls"] }
serde = { version = "1", features = ["derive"] }
serde_json = "1"
keyring = "3"
zip = { version = "2", default-features = false, features = ["deflate"] }
tar = "0.4"
flate2 = "1"
arboard = { version = "3", default-features = false }
enigo = "0.2"
rodio = "0.20"
log = "0.4"
