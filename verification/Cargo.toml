[package]
name = "keep_in_touch"
version = "0.1.0"
edition = "2021"
publish = false

[dependencies]
anyhow = "=1.0.104"
clap = { version = "=4.6.7", features = ["derive"] }
keepass = { version = "0.7", features = ["save_kdbx4", "challenge_response"] }
rpassword = "=7.5.4"
rustyline = "=19.0.0"
shellwords = "=1.1.0"
