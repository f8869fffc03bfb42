[package]
name = "oper"
version = "0.6.0"
edition = "2021"
publish = false

[dependencies]
anyhow = "=1.0.104"
app_dirs = "=1.2.1"
chrono = "=0.4.45"
clap = "=2.34.0"
console = "=0.15.11"
csv = "=1.4.0"
cursive = { version = "=0.17.0", default-features = false, features = ["crossterm-backend", "toml"] }
git2 = { version = "=0.13.25", default-features = false }
indicatif = "=0.15.0"
lazy_static = "=1.5.1"
num_cpus = "=1.17.0"
rayon = "=1.12.0"
serde = { version = "=1.0.229", features = ["derive"] }
spsheet = { version = "=0.1.0", features = ["ods", "xlsx"] }
toml = "=0.5.11"
