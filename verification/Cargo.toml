[package]
name = "passe"
version = "0.1.0"
edition = "2021"
publish = false

[dependencies]
anyhow = "*"
base64 = "*"
bcrypt-pbkdf = "*"
clap = "*"
clipboard = "*"
md5 = "*"
rand = "*"
rpassword = "*"
rprompt = "*"
serde = { version = "*", features = ["derive"] }
serde_json = "*"
shellexpand = "*"
ureq = "*"
