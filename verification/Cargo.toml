[package]
name = "sheldon"
version = "0.1.0"
edition = "2021"
publish = false

[dependencies]
anyhow = "*"
git2 = "*"
glob = "*"
handlebars = "*"
scoped_threadpool = "*"
serde = { version = "*", features = ["derive"] }
toml = "*"
ureq = "*"
url = "*"

[dev-dependencies]
tempfile = "*"
