[package]
name = "clap_config_file"
version = "0.1.0"
edition = "2021"
publish = false

[dependencies]
config = { version = "*", default-features = false, features = ["json", "yaml", "toml", "preserve_order"] }
heck = "*"
clap = { version = "*", features = ["derive"] }
serde = { version = "*", features = ["derive"] }
serde_yaml = "*"
syn = { version = "*", features = ["full"] }
quote = "*"
proc-macro2 = "*"
