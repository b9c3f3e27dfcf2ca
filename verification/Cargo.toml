[package]
name = "md_extras"
version = "0.1.0"
edition = "2021"
publish = false

[dependencies]
markdown-it = { version = "*", default-features = false }
pulldown-latex = "*"
regex = "1"
unbox-box = "*"
