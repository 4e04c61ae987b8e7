[package]
name = "binserve"
version = "0.1.0"
edition = "2021"
publish = false

[dependencies]
actix-web = { version = "4", features = ["rustls-0_22"] }
actix-files = "0.6"
actix-web-lab = "*"
anyhow = "1"
clap = "4"
colored = "*"
env_logger = "*"
handlebars = "*"
jwalk = "*"
minify-html-onepass = "*"
new_mime_guess = "4"
notify-debouncer-mini = "*"
parking_lot = "*"
rustls = "0.22"
rustls-pemfile = "2"
serde = { version = "1", features = ["derive"] }
serde_json = "1"
