[package]
name = "chatcore"
version = "0.1.0"
edition = "2021"
publish = false

[dependencies]
shlex = "*"
globset = "*"
base64 = "*"
sha2 = "*"
regex = "*"
html2md = "*"
sanitize-filename = "*"
rand = "*"
calamine = "*"
serde = { version = "*", features = ["derive"] }
serde_json = "*"
reqwest = { version = "*", default-features = false, features = ["json", "rustls-tls"] }
tokio = { version = "*", features = ["rt-multi-thread", "macros", "sync", "time", "fs"] }
tokio-util = "*"
futures = "*"
mail-parser = "*"
tiny_msg = "*"
zip = "*"
ignore = "*"
chrono = "*"
tempfile = "*"
schemars = "*"
