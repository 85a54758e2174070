[package]
name = "maudfmt"
version = "0.1.0"
edition = "2021"
publish = false

[dependencies]
anyhow = "1"
clap = { version = "4", features = ["derive"] }
crop = "0.4"
glob = "0.3"
prettyplease = { version = "0.2", features = ["verbatim"] }
proc-macro2 = { version = "1", features = ["span-locations"] }
quote = "1"
syn = { version = "2", features = ["full", "visit", "extra-traits"] }
