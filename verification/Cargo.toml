[package]
name = "rng_service"
version = "0.1.0"
edition = "2021"
publish = false

[dependencies]
rand = "0.8"
rand_distr = "0.4"
serde_json = "1"
hyper = { version = "0.14", features = ["full"] }
tokio = { version = "1", features = ["full"] }
clap = "2"
dotenv = "0.15"
toml = "0.5"
log = "0.4"
pretty_env_logger = "0.4"
