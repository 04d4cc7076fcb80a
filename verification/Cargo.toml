[package]
name = "gsc_client"
version = "0.1.0"
edition = "2021"
publish = false

[dependencies]
globset = "0.4"
percent-encoding = "2"
chrono = { version = "0.4", features = ["serde"] }
clap = "2"
fs2 = "0.4"
reqwest = { version = "0.11", default-features = false, features = ["blocking", "json"] }
rpassword = "5"
serde = "1"
serde_derive = "1"
serde_yaml = "0.8"
tabular = "0.2"
textwrap = "0.11"
thousands = "0.2"
vlog = "0.1"
