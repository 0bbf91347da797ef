[package]
name = "rustforger_tracer"
version = "0.1.0"
edition = "2021"
publish = false

[dependencies]
anyhow = "=1.0.104"
chrono = { version = "=0.4.45", default-features = false, features = ["std", "now"] }
clap = { version = "=4.6.7", features = ["derive"] }
lazy_static = "=1.5.1"
libc = "=0.2.191"
prettyplease = "=0.2.37"
proc-macro2 = { version = "=1.0.107", features = ["span-locations"] }
quote = "=1.0.47"
serde = { version = "=1.0.229", features = ["derive"] }
serde_json = "=1.0.154"
syn = { version = "=2.0.119", features = ["full", "visit", "visit-mut", "extra-traits"] }
toml_edit = "=0.19.15"
tracing = "=0.1.44"
