[package]
name = "finny"
version = "0.1.0"
edition = "2021"
publish = false

[dependencies]
arraydeque = "0.4"
heapless = "0.6"
petgraph = "0.5"
diff = "0.1"
serde = { version = "1", features = ["derive"] }
serde_json = "1"
slog = "2"
syn = { version = "1", features = ["full", "extra-traits"] }
quote = "1"
proc-macro2 = "1"
