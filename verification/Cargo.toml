[package]
name = "rsync_win"
version = "0.1.5"
edition = "2021"
publish = false

[dependencies]
md4 = "0.10"
md-5 = "0.10"
digest = "0.10"
thiserror = "1"
anyhow = "1"
