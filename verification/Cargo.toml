[package]
name = "git_repository"
version = "0.1.0"
edition = "2021"
publish = false

[dependencies]
bstr = "=1.13.1"
git-date = "=0.4.3"
git-validate = "=0.7.3"
git-packetline = { version = "=0.14.3", features = ["blocking-io"] }
quick-error = "=2.0.1"
bitflags = "=1.3.2"
serde = { version = "=1.0.229", features = ["derive"] }
