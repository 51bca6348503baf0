[package]
name = "sbe_schema"
version = "0.1.0"
edition = "2021"
publish = false

[dependencies]
anyhow = "*"
clap = { version = "*", features = ["derive"] }
exitcode = "*"
git2 = "*"
quick-xml = { version = "*", features = ["serialize"] }
semver = "*"
serde = { version = "*", features = ["derive"] }
serde_with = "*"
termcolor = "*"
thiserror = "*"
