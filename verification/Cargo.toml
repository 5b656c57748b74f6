[package]
name = "sts_profile_auth"
version = "0.1.0"
edition = "2021"
publish = false

[dependencies]
async-trait = "=0.1.92"
chrono = "=0.4.45"
dirs = "=7.0.0"
rusoto_core = { version = "=0.48.0", default-features = false, features = ["rustls"] }
rusoto_credential = "=0.48.0"
rusoto_sts = { version = "=0.48.0", default-features = false, features = ["rustls"] }
thiserror = "=2.0.21"
tokio = { version = "=1.54.1", features = ["rt", "sync"] }

[dev-dependencies]
regex = "=1.13.1"
