[package]
name = "verify_files"
version = "0.1.0"
edition = "2021"
publish = false

[dependencies]
anyhow = "1"
clap = { version = "4", features = ["derive"] }
clap-verbosity-flag = "*"
faccess = "*"
flate2 = "1"
ignore = "0.4"
image = { version = "0.25", default-features = false, features = ["bmp", "gif", "ico", "jpeg", "png", "pnm", "tga", "tiff"] }
json = "0.12"
log = "0.4"
stderrlog = "*"
toml = "*"
toml_edit = "*"
zip = { version = "*", default-features = false, features = ["deflate"] }
