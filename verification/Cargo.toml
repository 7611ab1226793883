[package]
name = "space_trader"
version = "0.1.0"
edition = "2021"
publish = false

[dependencies]
bcrypt = "0.15"
uuid = { version = "1", features = ["v4", "serde"] }
serde = { version = "1", features = ["derive"] }
serde_json = "1"
chrono = "0.4"
rand = "0.8"
noise = "0.8"
tokio = { version = "1", features = ["full"] }
tui = "0.19"
crossterm = "0.25"
thiserror = "1"
lazy_static = "1"
dotenv = "0.15"
get_if_addrs = "0.5"
hostname = "0.3"
num_cpus = "1"
