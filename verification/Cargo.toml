[package]
name = "phfe"
version = "0.1.0"
edition = "2021"
publish = false

[dependencies]
ark-bn254 = "=0.4.0"
ark-ec = "=0.4.2"
ark-ff = "=0.4.2"
ark-serialize = "=0.4.2"
ark-std = "=0.4.0"
bincode = "=1.3.3"
ff = { version = "0.12", features = ["derive"] }
nalgebra = { version = "=0.33.3", default-features = false, features = ["std"] }
nalgebra-sparse = "=0.10.0"
num-bigint = "=0.4.8"
num-traits = "=0.2.19"
rand = "=0.8.8"
rayon = "=1.12.0"
serde = { version = "=1.0.229", features = ["derive"] }
serde_json = "=1.0.154"
thiserror = "=1.0.69"
