[package]
name = "git_changelog"
version = "0.1.0"
edition = "2021"
publish = false

[dependencies]
chrono = { version = "=0.4.45", default-features = false, features = ["std"] }
custom_logger = "=0.1.0"
git2 = { version = "=0.21.0", default-features = false }
log = "=0.4.34"
octocrab = "=0.41.2"
octocrate = { version = "=2.2.0", features = ["repos"] }
tokio = { version = "=1.54.1", features = ["macros", "rt-multi-thread"] }
