[package]
name = "wordle_analyzer"
version = "0.1.0"
edition = "2021"
publish = false

[dependencies]
anyhow = "=1.0.104"
chrono = "=0.4.45"
clap = { version = "=4.6.7", features = ["derive"] }
colored = "=2.2.0"
console = "=0.15.11"
libpt = { version = "=0.7.4", features = ["cli", "log"] }
num_cpus = "=1.17.0"
rand = "=0.8.8"
rayon = "=1.12.0"
regex = "=1.13.1"
serde = { version = "=1.0.229", features = ["derive"] }
serde_json = "=1.0.154"
strum = { version = "=0.26.3", features = ["derive"] }
thiserror = "=1.0.69"
