[package]
name = "csv_profiler"
version = "0.1.0"
edition = "2021"
publish = false

[dependencies]
ahash = "=0.8.12"
atoi_simd = "=0.16.1"
bincode = "=1.3.3"
clap = "=4.6.7"
csv = "=1.4.0"
dynfmt = { version = "=0.1.5", default-features = false, features = ["curly"] }
grex = { version = "=1.4.6", default-features = false }
indicatif = "=0.17.11"
itertools = "=0.13.0"
log = "=0.4.34"
polars = { version = "=0.44.2", default-features = false, features = ["lazy", "sql", "csv"] }
qsv-stats = "=0.22.0"
rayon = "=1.12.0"
serde = { version = "=1.0.229", features = ["derive"] }
serde_json = { version = "=1.0.154", features = ["preserve_order"] }
simdutf8 = "=0.1.5"
snap = "=1.1.2"
tempfile = "=3.27.0"
