[package]
name = "seer"
version = "0.1.0"
edition = "2021"
publish = false

[dependencies]
sha2 = "0.10"
serde_json = "1"
anchor-lang-idl-spec = "*"
codama-nodes = "*"
object = "0.36"
toml_edit = "0.22"
path-clean = "1"
anyhow = "1"
clap = { version = "4", features = ["derive"] }
tokio = { version = "1", features = ["full"] }
dirs = "5"
directories = "5"
dunce = "1"
cargo_metadata = "0.18"
reqwest = { version = "0.12", default-features = false, features = ["json", "stream"] }
futures = "0.3"
flate2 = "1"
tar = "0.4"
rpassword = "7"
gimli = "0.31"
memmap2 = "0.9"
tracing = "0.1"
tracing-subscriber = { version = "0.3", features = ["env-filter"] }
crossterm = "0.28"
ratatui = "0.29"
