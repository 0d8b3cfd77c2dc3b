[package]
name = "mdopen"
version = "0.1.0"
edition = "2021"
publish = false

[dependencies]
pulldown-cmark = "*"
syntect = { version = "*", default-features = false, features = ["parsing", "default-syntaxes", "default-themes", "html", "regex-fancy"] }
percent-encoding = "2"
sha1 = "0.10"
base64 = "*"
tiny_http = "0.12"
lexopt = "*"
minijinja = "*"
notify = "*"
open = "*"
serde = { version = "1", features = ["derive"] }
