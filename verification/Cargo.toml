[package]
name = "polysite"
version = "0.1.0"
edition = "2021"
publish = false

[dependencies]
glob = "*"
pulldown-cmark = "*"
fronma = "*"
serde_json = "*"
tera = { version = "*", default-features = false }
