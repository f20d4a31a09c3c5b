[package]
name = "authorize_me"
version = "0.1.0"
edition = "2021"
publish = false

[dependencies]
anyhow = "=1.0.104"
chrono = "=0.4.45"
clap-verbosity-flag = "=0.3.2"
directories = "=6.0.0"
env_logger = "=0.11.11"
external-ip = "=7.0.0"
log = "=0.4.34"
quick-xml = "=0.37.5"
rusoto_core = { version = "=0.48.0", default-features = false, features = ["rustls"] }
rusoto_ec2 = { version = "=0.48.0", default-features = false, features = ["rustls"] }
structopt = "=0.3.26"
tokio = { version = "=1.54.1", features = ["fs", "macros", "rt-multi-thread"] }
whoami = "=0.8.2"
