[package]
name = "blind-sig-bench"
version = "0.1.0"
edition = "2021"
publish = false

[dependencies]
blake2 = "0.9"
curve25519-dalek = "3"
dashmap = "4"
gnuplot = "0.0"
rand = "0.7"
rand_distr = "0.3"
reqwest = { version = "0.10", default-features = false, features = ["blocking", "json"] }
rouille = "3"
serde = { version = "1", features = ["derive"] }
serde_json = "1"
